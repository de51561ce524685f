//! Version labels: normalization of user-supplied version strings, the
//! version read from a `.bumrc` configuration file, and the label taken
//! from an archive's file name.

use vstd::prelude::*;
use vstd::string::*;
use crate::error::Error;
use crate::text::{push_char, trim_str, trimmed, last_segment, last_segment_str, lemma_filter_push,
    lemma_filter_idempotent};

verus! {

/// A normalized version label: every `v` character is dropped, wherever it
/// stands in the input, and everything else is kept in order.
pub open spec fn normalized(s: Seq<char>) -> Seq<char> {
    s.filter(|c: char| c != 'v')
}

#[verifier::loop_isolation(false)]
pub fn normalize_version(version: &str) -> (r: String)
    ensures
        r@ == normalized(version@),
{
    let n = version.unicode_len();
    let mut r = String::new();
    let ghost pred = |c: char| c != 'v';
    proof {
        assert(version@.subrange(0, 0).filter(pred) =~= Seq::<char>::empty());
    }
    let mut i: usize = 0;
    while i < n
        invariant
            i <= n,
            n == version@.len(),
            r@ == version@.subrange(0, i as int).filter(pred),
        decreases n - i,
    {
        proof {
            lemma_filter_push(version@.subrange(0, i as int), pred, version@[i as int]);
            assert(version@.subrange(0, i + 1) =~= version@.subrange(0, i as int).push(
                version@[i as int],
            ));
        }
        let c = version.get_char(i);
        if c != 'v' {
            push_char(&mut r, c);
        }
        i += 1;
    }
    proof {
        assert(version@.subrange(0, n as int) =~= version@);
    }
    r
}

/// No `v` survives normalization.
pub proof fn lemma_normalized_no_v(s: Seq<char>)
    ensures
        forall|i: int| 0 <= i < normalized(s).len() ==> normalized(s)[i] != 'v',
{
    broadcast use vstd::prelude::Seq::lemma_filter_pred;

}

/// Normalizing twice is the same as normalizing once: the label of an
/// already-normalized version passes through unchanged.
pub proof fn lemma_normalized_idempotent(s: Seq<char>)
    ensures
        normalized(normalized(s)) == normalized(s),
{
    lemma_filter_idempotent(s, |c: char| c != 'v');
}

/// The version that a `.bumrc` file supplies: the file's text with
/// surrounding whitespace trimmed. `content` is the file's text, or
/// `None` when no such file exists, which is the missing-configuration
/// failure.
pub fn get_bumrc_version(content: Option<&str>) -> (r: Result<String, Error>)
    ensures
        match r {
            Ok(v) => content is Some && v@ == trimmed(content->0@),
            Err(e) => content is None && e is ConfigMissing,
        },
{
    match content {
        Some(text) => Ok(trim_str(text)),
        None => Err(Error::ConfigMissing),
    }
}

/// The active version as the runtime itself reports it: what running the
/// active binary with its version flag printed, trimmed of surrounding
/// whitespace.
pub fn get_active_version(output: &str) -> (r: String)
    ensures
        r@ == trimmed(output@),
{
    trim_str(output)
}

/// The version segment that an archive file name carries: the final path
/// segment with its `.zip` suffix cut off, as the extractor derives the
/// store directory from the archive it was handed.
pub open spec fn archive_label(s: Seq<char>) -> Seq<char> {
    let name = last_segment(s);
    if name.len() >= 4 && name.subrange(name.len() - 4, name.len() as int) == ".zip"@ {
        name.subrange(0, name.len() - 4)
    } else {
        name
    }
}

pub fn archive_version_label(path: &str) -> (r: String)
    ensures
        r@ == archive_label(path@),
{
    let name = last_segment_str(path);
    let n = name.as_str().unicode_len();
    if n >= 4 {
        let tail = name.as_str().substring_char(n - 4, n);
        if crate::text::str_eq(tail, ".zip") {
            let stem = name.as_str().substring_char(0, n - 4);
            return String::from_str(stem);
        }
    }
    name
}

} // verus!
