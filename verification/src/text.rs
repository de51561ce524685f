//! Character and string helpers shared by the whole library: whitespace
//! trimming, lexicographic comparison, prefixes, path segments and decimal
//! rendering, each specified over `Seq<char>` views.

use vstd::prelude::*;
use vstd::string::*;

verus! {

/// Relies on std's `String::push`: appends exactly one character at the end.
#[verifier::external_body]
pub(crate) fn push_char(s: &mut String, c: char)
    ensures
        final(s)@ == old(s)@.push(c),
{
    s.push(c);
}

/// The characters with the Unicode `White_Space` property, the set that
/// `str::trim` strips from either end.
pub open spec fn is_space(c: char) -> bool {
    (0x9 <= c as u32 && c as u32 <= 0xD) || c as u32 == 0x20 || c as u32 == 0x85 || c as u32
        == 0xA0 || c as u32 == 0x1680 || (0x2000 <= c as u32 && c as u32 <= 0x200A) || c as u32
        == 0x2028 || c as u32 == 0x2029 || c as u32 == 0x202F || c as u32 == 0x205F || c as u32
        == 0x3000
}

pub fn is_space_char(c: char) -> (r: bool)
    ensures
        r == is_space(c),
{
    let u = c as u32;
    (0x9 <= u && u <= 0xD) || u == 0x20 || u == 0x85 || u == 0xA0 || u == 0x1680 || (0x2000 <= u
        && u <= 0x200A) || u == 0x2028 || u == 0x2029 || u == 0x202F || u == 0x205F || u == 0x3000
}

/// Whether `p` stands at the beginning of `s`.
pub open spec fn has_prefix(s: Seq<char>, p: Seq<char>) -> bool {
    p.len() <= s.len() && s.subrange(0, p.len() as int) == p
}

pub fn str_has_prefix(s: &str, p: &str) -> (r: bool)
    ensures
        r == has_prefix(s@, p@),
{
    let n = p.unicode_len();
    let sn = s.unicode_len();
    if n > sn {
        return false;
    }
    let mut i: usize = 0;
    while i < n
        invariant
            i <= n,
            n == p@.len(),
            sn == s@.len(),
            n <= sn,
            forall|j: int| 0 <= j < i ==> s@[j] == p@[j],
        decreases n - i,
    {
        if s.get_char(i) != p.get_char(i) {
            assert(s@.subrange(0, n as int)[i as int] != p@[i as int]);
            return false;
        }
        i += 1;
    }
    assert(s@.subrange(0, n as int) =~= p@);
    true
}

/// Lexicographic order on character sequences by code point; on UTF-8
/// strings it agrees with the byte order that std's string comparison uses.
pub open spec fn lex_le(a: Seq<char>, b: Seq<char>) -> bool
    decreases a.len(),
{
    if a.len() == 0 {
        true
    } else if b.len() == 0 {
        false
    } else if (a[0] as u32) < (b[0] as u32) {
        true
    } else if (a[0] as u32) > (b[0] as u32) {
        false
    } else {
        lex_le(a.drop_first(), b.drop_first())
    }
}

pub open spec fn lex_ge(a: Seq<char>, b: Seq<char>) -> bool {
    lex_le(b, a)
}

pub proof fn lemma_lex_le_total(a: Seq<char>, b: Seq<char>)
    ensures
        lex_le(a, b) || lex_le(b, a),
        lex_le(a, b) && lex_le(b, a) ==> a == b,
    decreases a.len(),
{
    if a.len() == 0 {
        if lex_le(b, a) {
            assert(b.len() == 0);
            assert(a =~= b);
        }
    } else if b.len() == 0 {
    } else if (a[0] as u32) == (b[0] as u32) {
        vstd::utf8::char_u32_cast(a[0], a[0] as u32);
        vstd::utf8::char_u32_cast(b[0], b[0] as u32);
        assert(a[0] == b[0]);
        lemma_lex_le_total(a.drop_first(), b.drop_first());
        if lex_le(a, b) && lex_le(b, a) {
            assert(a.drop_first() == b.drop_first());
            assert forall|i: int| 0 <= i < a.len() implies a[i] == b[i] by {
                if i > 0 {
                    assert(a.drop_first()[i - 1] == b.drop_first()[i - 1]);
                }
            }
            assert(a =~= b);
        }
    }
}

pub proof fn lemma_lex_le_trans(a: Seq<char>, b: Seq<char>, c: Seq<char>)
    requires
        lex_le(a, b),
        lex_le(b, c),
    ensures
        lex_le(a, c),
    decreases a.len(),
{
    if a.len() == 0 || b.len() == 0 || c.len() == 0 {
    } else {
        if (a[0] as u32) == (b[0] as u32) && (b[0] as u32) == (c[0] as u32) {
            lemma_lex_le_trans(a.drop_first(), b.drop_first(), c.drop_first());
        }
    }
}

pub fn str_lex_le(a: &str, b: &str) -> (r: bool)
    ensures
        r == lex_le(a@, b@),
{
    let an = a.unicode_len();
    let bn = b.unicode_len();
    let mut i: usize = 0;
    proof {
        assert(a@.subrange(0, an as int) =~= a@);
        assert(b@.subrange(0, bn as int) =~= b@);
    }
    loop
        invariant
            i <= an,
            i <= bn,
            an == a@.len(),
            bn == b@.len(),
            lex_le(a@, b@) == lex_le(
                a@.subrange(i as int, an as int),
                b@.subrange(i as int, bn as int),
            ),
        decreases an - i,
    {
        if i == an {
            assert(a@.subrange(i as int, an as int).len() == 0);
            return true;
        }
        if i == bn {
            assert(b@.subrange(i as int, bn as int).len() == 0);
            assert(a@.subrange(i as int, an as int).len() > 0);
            return false;
        }
        let ca = a.get_char(i) as u32;
        let cb = b.get_char(i) as u32;
        assert(a@.subrange(i as int, an as int)[0] == a@[i as int]);
        assert(b@.subrange(i as int, bn as int)[0] == b@[i as int]);
        if ca < cb {
            return true;
        }
        if ca > cb {
            return false;
        }
        proof {
            assert(a@.subrange(i as int, an as int).drop_first() =~= a@.subrange(
                i + 1,
                an as int,
            ));
            assert(b@.subrange(i as int, bn as int).drop_first() =~= b@.subrange(
                i + 1,
                bn as int,
            ));
        }
        i += 1;
    }
}

pub fn str_eq(a: &str, b: &str) -> (r: bool)
    ensures
        r == (a@ == b@),
{
    let n = a.unicode_len();
    if n != b.unicode_len() {
        return false;
    }
    let mut i: usize = 0;
    while i < n
        invariant
            i <= n,
            n == a@.len(),
            n == b@.len(),
            forall|j: int| 0 <= j < i ==> a@[j] == b@[j],
        decreases n - i,
    {
        if a.get_char(i) != b.get_char(i) {
            return false;
        }
        i += 1;
    }
    assert(a@ =~= b@);
    true
}

/// One unfolding of `Seq::filter` from the back, the step that loop
/// invariants over a growing prefix need.
pub proof fn lemma_filter_push<A>(s: Seq<A>, pred: spec_fn(A) -> bool, x: A)
    ensures
        s.push(x).filter(pred) == if pred(x) {
            s.filter(pred).push(x)
        } else {
            s.filter(pred)
        },
{
    reveal_with_fuel(Seq::<_>::filter, 1);
    assert(s.push(x).drop_last() =~= s);
}

/// Filtering is idempotent: a second pass with the same predicate keeps
/// everything the first one kept.
pub proof fn lemma_filter_idempotent<A>(s: Seq<A>, pred: spec_fn(A) -> bool)
    ensures
        s.filter(pred).filter(pred) == s.filter(pred),
    decreases s.len(),
{
    reveal_with_fuel(Seq::<_>::filter, 1);
    if s.len() > 0 {
        lemma_filter_idempotent(s.drop_last(), pred);
        lemma_filter_push(s.drop_last().filter(pred), pred, s.last());
        assert(s.drop_last().push(s.last()) =~= s);
    }
}

pub open spec fn trim_start_spec(s: Seq<char>) -> Seq<char>
    decreases s.len(),
{
    if s.len() == 0 {
        s
    } else if is_space(s[0]) {
        trim_start_spec(s.drop_first())
    } else {
        s
    }
}

pub open spec fn trim_end_spec(s: Seq<char>) -> Seq<char>
    decreases s.len(),
{
    if s.len() == 0 {
        s
    } else if is_space(s.last()) {
        trim_end_spec(s.drop_last())
    } else {
        s
    }
}

/// What `str::trim` returns: the input without leading and trailing
/// whitespace.
pub open spec fn trimmed(s: Seq<char>) -> Seq<char> {
    trim_end_spec(trim_start_spec(s))
}

proof fn lemma_trim_start_subrange(s: Seq<char>, k: int)
    requires
        0 <= k <= s.len(),
        forall|i: int| 0 <= i < k ==> is_space(s[i]),
        k < s.len() ==> !is_space(s[k]),
    ensures
        trim_start_spec(s) == s.subrange(k, s.len() as int),
    decreases k,
{
    if k == 0 {
        assert(s.subrange(0, s.len() as int) =~= s);
    } else {
        assert(is_space(s[0]));
        lemma_trim_start_subrange(s.drop_first(), k - 1);
        assert(s.drop_first().subrange(k - 1, s.drop_first().len() as int) =~= s.subrange(
            k,
            s.len() as int,
        ));
    }
}

proof fn lemma_trim_end_subrange(s: Seq<char>, k: int)
    requires
        0 <= k <= s.len(),
        forall|i: int| k <= i < s.len() ==> is_space(s[i]),
        k > 0 ==> !is_space(s[k - 1]),
    ensures
        trim_end_spec(s) == s.subrange(0, k),
    decreases s.len() - k,
{
    if k == s.len() {
        assert(s.subrange(0, k) =~= s);
    } else {
        assert(is_space(s.last()));
        lemma_trim_end_subrange(s.drop_last(), k);
        assert(s.drop_last().subrange(0, k) =~= s.subrange(0, k));
    }
}

/// What `str::trim` does, as a verified scan from both ends.
pub fn trim_str(s: &str) -> (r: String)
    ensures
        r@ == trimmed(s@),
{
    let n = s.unicode_len();
    let mut a: usize = 0;
    while a < n && is_space_char(s.get_char(a))
        invariant
            a <= n,
            n == s@.len(),
            forall|i: int| 0 <= i < a ==> is_space(s@[i]),
        decreases n - a,
    {
        a += 1;
    }
    proof {
        lemma_trim_start_subrange(s@, a as int);
    }
    if a == n {
        proof {
            assert(trim_start_spec(s@).len() == 0);
        }
        return String::new();
    }
    let mut b: usize = n;
    while b > a && is_space_char(s.get_char(b - 1))
        invariant
            a <= b <= n,
            n == s@.len(),
            forall|i: int| b <= i < n ==> is_space(s@[i]),
        decreases b,
    {
        b -= 1;
    }
    assert(b > a) by {
        assert(!is_space(s@[a as int]));
    }
    let piece = s.substring_char(a, b);
    proof {
        let t = s@.subrange(a as int, n as int);
        lemma_trim_end_subrange(t, b - a);
        assert(t.subrange(0, b - a) =~= s@.subrange(a as int, b as int));
    }
    String::from_str(piece)
}

pub open spec fn is_sep(c: char) -> bool {
    c == '/' || c == '\\'
}

/// The final path segment: everything after the last `/` or `\`, the whole
/// text when neither occurs.
pub open spec fn last_segment(s: Seq<char>) -> Seq<char>
    decreases s.len(),
{
    if s.len() == 0 {
        s
    } else if is_sep(s.last()) {
        Seq::empty()
    } else {
        last_segment(s.drop_last()).push(s.last())
    }
}

proof fn lemma_last_segment_suffix(s: Seq<char>, k: int)
    requires
        -1 <= k < s.len(),
        k >= 0 ==> is_sep(s[k]),
        forall|i: int| k < i < s.len() ==> !is_sep(s[i]),
    ensures
        last_segment(s) == s.subrange(k + 1, s.len() as int),
    decreases s.len() - k,
{
    if k + 1 == s.len() {
        if k >= 0 {
            assert(is_sep(s.last()));
        } else {
            assert(s.len() == 0);
        }
        assert(s.subrange(k + 1, s.len() as int) =~= Seq::<char>::empty());
    } else {
        assert(!is_sep(s.last()));
        lemma_last_segment_suffix(s.drop_last(), k);
        assert(s.drop_last().subrange(k + 1, s.drop_last().len() as int).push(s.last())
            =~= s.subrange(k + 1, s.len() as int));
    }
}

/// The final path segment of `s`, accepting both separator styles, as the
/// directory listing uses it to turn an entry path into a version label.
pub fn last_segment_str(s: &str) -> (r: String)
    ensures
        r@ == last_segment(s@),
{
    let n = s.unicode_len();
    let mut k: usize = n;
    loop
        invariant
            k <= n,
            n == s@.len(),
            forall|i: int| k <= i < n ==> !is_sep(s@[i]),
        ensures
            k <= n,
            forall|i: int| k <= i < n ==> !is_sep(s@[i]),
            k > 0 ==> is_sep(s@[k - 1]),
        decreases k,
    {
        if k == 0 {
            break ;
        }
        let c = s.get_char(k - 1);
        if c == '/' || c == '\\' {
            break ;
        }
        k -= 1;
    }
    proof {
        lemma_last_segment_suffix(s@, k - 1);
    }
    let piece = s.substring_char(k, n);
    String::from_str(piece)
}

/// The decimal digit character for a value below ten.
pub open spec fn dec_digit(d: int) -> char {
    if d == 0 {
        '0'
    } else if d == 1 {
        '1'
    } else if d == 2 {
        '2'
    } else if d == 3 {
        '3'
    } else if d == 4 {
        '4'
    } else if d == 5 {
        '5'
    } else if d == 6 {
        '6'
    } else if d == 7 {
        '7'
    } else if d == 8 {
        '8'
    } else {
        '9'
    }
}

/// The usual decimal rendering of a non-negative integer.
pub open spec fn dec_rep(n: int) -> Seq<char>
    decreases n,
{
    if n < 10 {
        seq![dec_digit(n)]
    } else {
        dec_rep(n / 10).push(dec_digit(n % 10))
    }
}

fn dec_digit_char(d: u32) -> (r: char)
    requires
        d < 10,
    ensures
        r == dec_digit(d as int),
{
    if d == 0 {
        '0'
    } else if d == 1 {
        '1'
    } else if d == 2 {
        '2'
    } else if d == 3 {
        '3'
    } else if d == 4 {
        '4'
    } else if d == 5 {
        '5'
    } else if d == 6 {
        '6'
    } else if d == 7 {
        '7'
    } else if d == 8 {
        '8'
    } else {
        '9'
    }
}

/// Renders a status code and the like in decimal for messages.
pub fn u32_to_decimal(n: u32) -> (r: String)
    ensures
        r@ == dec_rep(n as int),
{
    let mut digits: Vec<char> = Vec::new();
    let mut rest: u32 = n;
    loop
        invariant_except_break
            dec_rep(n as int) == dec_rep(rest as int) + digits@.reverse(),
        ensures
            dec_rep(n as int) == digits@.reverse(),
        decreases rest,
    {
        let d = rest % 10;
        let q = rest / 10;
        let c = dec_digit_char(d);
        proof {
            assert(digits@.push(c).reverse() =~= seq![c] + digits@.reverse());
            if q > 0 {
                assert(dec_rep(rest as int) == dec_rep(q as int).push(dec_digit(d as int)));
                assert(dec_rep(q as int) + digits@.push(c).reverse() =~= dec_rep(q as int).push(c)
                    + digits@.reverse());
            } else {
                assert(rest < 10);
                assert(dec_rep(rest as int) == seq![dec_digit(rest as int)]);
                assert(dec_rep(rest as int) + digits@.reverse() =~= digits@.push(c).reverse());
            }
        }
        digits.push(c);
        if q == 0 {
            break ;
        }
        rest = q;
    }
    let mut out = String::new();
    let mut i: usize = digits.len();
    proof {
        assert(digits@.reverse().subrange(0, 0) =~= Seq::<char>::empty());
    }
    while i > 0
        invariant
            i <= digits@.len(),
            out@ == digits@.reverse().subrange(0, digits@.len() - i),
        decreases i,
    {
        let c = digits[i - 1];
        push_char(&mut out, c);
        proof {
            assert(digits@.reverse()[digits@.len() - i] == digits@[i - 1]);
            assert(digits@.reverse().subrange(0, digits@.len() - (i - 1))
                =~= digits@.reverse().subrange(0, digits@.len() - i).push(digits@[i - 1]));
        }
        i -= 1;
    }
    proof {
        assert(digits@.reverse().subrange(0, digits@.len() as int) =~= digits@.reverse());
    }
    out
}

} // verus!
