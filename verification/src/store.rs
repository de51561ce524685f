//! The version store as the commands see it: the labels of its
//! subdirectories, the descending listing, and the effect of removing a
//! version or activating one.

use vstd::prelude::*;
use vstd::string::*;
use vstd::seq_lib::group_to_multiset_ensures;
use crate::text::{
    lex_le,
    lex_ge,
    lemma_lex_le_total,
    lemma_lex_le_trans,
    last_segment,
    last_segment_str,
    str_lex_le,
    str_eq,
};

verus! {

/// Descending lexicographic order: every earlier entry is at least as
/// large as every later one.
pub open spec fn sorted_desc(s: Seq<Seq<char>>) -> bool {
    forall|i: int, j: int| 0 <= i < j < s.len() ==> lex_ge(s[i], s[j])
}

/// Sorts version labels in descending lexicographic order, as the listing
/// shows them: the result holds exactly the input's labels.
#[verifier::loop_isolation(false)]
pub fn sort_versions_desc(list: &Vec<String>) -> (r: Vec<String>)
    ensures
        sorted_desc(r.deep_view()),
        r.deep_view().to_multiset() == list.deep_view().to_multiset(),
        r@.len() == list@.len(),
{
    broadcast use group_to_multiset_ensures;

    let mut out: Vec<String> = Vec::new();
    proof {
        assert(list.deep_view().take(0) =~= Seq::<Seq<char>>::empty());
        assert(out.deep_view() =~= Seq::<Seq<char>>::empty());
    }
    let mut idx: usize = 0;
    while idx < list.len()
        invariant
            idx <= list@.len(),
            out@.len() == idx,
            sorted_desc(out.deep_view()),
            out.deep_view().to_multiset() == list.deep_view().take(idx as int).to_multiset(),
        decreases list@.len() - idx,
    {
        let x: String = (&list[idx]).clone();
        let ghost xs = x@;
        proof {
            assert(xs == list.deep_view()[idx as int]);
        }
        let mut j: usize = 0;
        while j < out.len() && !str_lex_le((&out[j]).as_str(), x.as_str())
            invariant
                j <= out@.len(),
                forall|k: int| 0 <= k < j ==> !lex_le(out.deep_view()[k], xs),
            decreases out@.len() - j,
        {
            j += 1;
        }
        proof {
            let d = out.deep_view();
            let dn = d.insert(j as int, xs);
            assert forall|k: int| 0 <= k < j implies lex_le(xs, d[k]) by {
                lemma_lex_le_total(d[k], xs);
            }
            assert forall|k: int| j <= k < d.len() implies lex_le(d[k], xs) by {
                if k > j {
                    assert(lex_ge(d[j as int], d[k]));
                    lemma_lex_le_trans(d[k], d[j as int], xs);
                }
            }
            d.insert_ensures(j as int, xs);
            assert forall|p: int, q: int| 0 <= p < q < dn.len() implies lex_ge(dn[p], dn[q]) by {
                if q < j {
                    assert(lex_ge(d[p], d[q]));
                } else if p > j {
                    assert(lex_ge(d[p - 1], d[q - 1]));
                } else if p == j && q == j {
                } else if p < j && q == j {
                    assert(dn[p] == d[p] && dn[q] == xs);
                } else if p == j && q > j {
                    assert(dn[p] == xs && dn[q] == d[q - 1]);
                } else {
                    assert(p < j && q > j);
                    assert(dn[p] == d[p] && dn[q] == d[q - 1]);
                    lemma_lex_le_trans(d[q - 1], xs, d[p]);
                }
            }
        }
        let ghost d = out.deep_view();
        out.insert(j, x);
        proof {
            let prev = list.deep_view().take(idx as int);
            let cur = list.deep_view().take(idx + 1);
            assert(out.deep_view() =~= d.insert(j as int, xs));
            assert(cur =~= prev.push(xs));
            assert(out.deep_view().to_multiset() =~= cur.to_multiset());
        }
        idx += 1;
    }
    proof {
        assert(list.deep_view().take(list@.len() as int) =~= list.deep_view());
    }
    out
}

/// The version label of each store entry path: its final path segment,
/// with either separator style accepted.
pub open spec fn version_labels(paths: Seq<Seq<char>>) -> Seq<Seq<char>> {
    paths.map_values(|p: Seq<char>| last_segment(p))
}

/// The local listing: one label per store subdirectory, in descending
/// lexicographic order.
#[verifier::loop_isolation(false)]
pub fn list_versions(paths: &Vec<String>) -> (r: Vec<String>)
    ensures
        sorted_desc(r.deep_view()),
        r.deep_view().to_multiset() == version_labels(paths.deep_view()).to_multiset(),
        r@.len() == paths@.len(),
{
    let mut labels: Vec<String> = Vec::new();
    let mut i: usize = 0;
    while i < paths.len()
        invariant
            i <= paths@.len(),
            labels@.len() == i,
            forall|k: int|
                0 <= k < i ==> labels.deep_view()[k] == last_segment(paths.deep_view()[k]),
        decreases paths@.len() - i,
    {
        let lab = last_segment_str((&paths[i]).as_str());
        let ghost old_labels = labels.deep_view();
        labels.push(lab);
        proof {
            assert(labels.deep_view() =~= old_labels.push(lab@));
        }
        i += 1;
    }
    proof {
        assert(labels.deep_view() =~= version_labels(paths.deep_view()));
    }
    sort_versions_desc(&labels)
}

/// Which listed label is the active one, label by label.
pub fn mark_active(versions: &Vec<String>, active: &str) -> (r: Vec<bool>)
    ensures
        r@.len() == versions@.len(),
        forall|i: int| 0 <= i < r@.len() ==> r@[i] == (versions.deep_view()[i] == active@),
{
    let mut r: Vec<bool> = Vec::new();
    let mut i: usize = 0;
    while i < versions.len()
        invariant
            i <= versions@.len(),
            r@.len() == i,
            forall|k: int| 0 <= k < i ==> r@[k] == (versions.deep_view()[k] == active@),
        decreases versions@.len() - i,
    {
        r.push(str_eq((&versions[i]).as_str(), active));
        i += 1;
    }
    r
}

/// What removing a version leaves in the store: every entry of that
/// label is gone, everything else stays in order.
pub open spec fn remove_model(installed: Seq<Seq<char>>, v: Seq<char>) -> Seq<Seq<char>>
    decreases installed.len(),
{
    if installed.len() == 0 {
        installed
    } else {
        let rest = remove_model(installed.drop_last(), v);
        if installed.last() == v {
            rest
        } else {
            rest.push(installed.last())
        }
    }
}

/// One unfolding of `remove_model` from the back.
pub proof fn lemma_remove_model_push(s: Seq<Seq<char>>, v: Seq<char>, x: Seq<char>)
    ensures
        remove_model(s.push(x), v) == if x == v {
            remove_model(s, v)
        } else {
            remove_model(s, v).push(x)
        },
{
    assert(s.push(x).drop_last() =~= s);
    assert(s.push(x).last() == x);
}

/// Removes a version's entry from the store's labels. The flag says
/// whether anything was there to remove; a second removal of the same
/// label reports `false` rather than failing hard.
#[verifier::loop_isolation(false)]
pub fn remove_version(store: Vec<String>, version: &str) -> (r: (Vec<String>, bool))
    ensures
        r.0.deep_view() == remove_model(store.deep_view(), version@),
        r.1 == store.deep_view().contains(version@),
{
    let mut out: Vec<String> = Vec::new();
    let mut found = false;
    proof {
        assert(store.deep_view().take(0) =~= Seq::<Seq<char>>::empty());
        assert(out.deep_view() =~= Seq::<Seq<char>>::empty());
    }
    let mut i: usize = 0;
    while i < store.len()
        invariant
            i <= store@.len(),
            out.deep_view() == remove_model(store.deep_view().take(i as int), version@),
            found == store.deep_view().take(i as int).contains(version@),
        decreases store@.len() - i,
    {
        let ghost prev = store.deep_view().take(i as int);
        proof {
            lemma_remove_model_push(prev, version@, store.deep_view()[i as int]);
            assert(store.deep_view().take(i + 1) =~= prev.push(store.deep_view()[i as int]));
        }
        let entry: &String = &store[i];
        let ghost old_out = out.deep_view();
        if str_eq(entry.as_str(), version) {
            found = true;
            proof {
                assert(store.deep_view().take(i + 1)[i as int] == version@);
            }
        } else {
            out.push(entry.clone());
            proof {
                assert(out.deep_view() =~= old_out.push(entry@));
                if store.deep_view().take(i + 1).contains(version@) {
                    let cur = store.deep_view().take(i + 1);
                    let k = choose|k: int| 0 <= k < cur.len() && #[trigger] cur[k] == version@;
                    if k < i {
                        assert(prev[k] == version@);
                    }
                }
            }
        }
        i += 1;
    }
    proof {
        assert(store.deep_view().take(store@.len() as int) =~= store.deep_view());
    }
    (out, found)
}

/// Nothing of a removed label survives: the store no longer holds it, a
/// second removal finds nothing to remove, and the store is left exactly
/// as the first removal left it.
pub proof fn lemma_remove_then_absent(installed: Seq<Seq<char>>, v: Seq<char>)
    ensures
        !remove_model(installed, v).contains(v),
        remove_model(remove_model(installed, v), v) == remove_model(installed, v),
    decreases installed.len(),
{
    if installed.len() > 0 {
        lemma_remove_then_absent(installed.drop_last(), v);
        let rest = remove_model(installed.drop_last(), v);
        if installed.last() != v {
            let whole = rest.push(installed.last());
            assert(!whole.contains(v)) by {
                if whole.contains(v) {
                    let k = choose|k: int| 0 <= k < whole.len() && #[trigger] whole[k] == v;
                    if k < rest.len() {
                        assert(rest[k] == v);
                    }
                }
            }
            lemma_remove_model_push(rest, v, installed.last());
        }
    }
}

/// A listing permutes the store's labels, so a label absent from the
/// store is absent from every listing of it.
pub proof fn lemma_absent_version_not_listed(
    entries: Seq<Seq<char>>,
    listed: Seq<Seq<char>>,
    v: Seq<char>,
)
    requires
        !entries.contains(v),
        listed.to_multiset() == entries.to_multiset(),
    ensures
        !listed.contains(v),
{
    broadcast use group_to_multiset_ensures;

    if listed.contains(v) {
        assert(listed.to_multiset().count(v) > 0);
        assert(entries.to_multiset().count(v) > 0);
        assert(entries.contains(v));
    }
}

/// One extracted binary: its bytes and its permission bits.
pub struct Binary {
    pub bytes: Vec<u8>,
    pub mode: u32,
}

/// The active binary's state, for speaking about activation: the bytes at
/// the fixed path and its permission bits.
pub struct ActiveModel {
    pub bytes: Seq<u8>,
    pub mode: u32,
}

/// What activating a version does to the active binary: the source's
/// bytes replace it wholesale and the three executable bits are set on
/// the source's permission bits. Whatever was active before does not
/// enter into it.
pub open spec fn activate_model(source: ActiveModel, previous: Option<ActiveModel>) -> ActiveModel {
    ActiveModel { bytes: source.bytes, mode: source.mode | 0o111 }
}

/// The activator's effect, executably: copy the store's binary over the
/// active path and OR the three executable bits into its mode.
pub fn activate(source: &Binary) -> (r: Binary)
    ensures
        r.bytes@ == source.bytes@,
        r.mode == source.mode | 0o111,
        (ActiveModel { bytes: r.bytes@, mode: r.mode }) == activate_model(
            ActiveModel { bytes: source.bytes@, mode: source.mode },
            None,
        ),
{
    let bytes = source.bytes.clone();
    proof {
        assert(bytes@ =~= source.bytes@);
    }
    Binary { bytes, mode: source.mode | 0o111 }
}

/// Activating the same version twice in a row changes nothing the second
/// time: the active binary stays byte-identical to the source version's
/// binary, and its executable bits are set after either run.
pub proof fn lemma_activate_idempotent(source: ActiveModel, previous: Option<ActiveModel>)
    ensures
        activate_model(source, Some(activate_model(source, previous))) == activate_model(
            source,
            previous,
        ),
        activate_model(source, previous).bytes == source.bytes,
        activate_model(source, previous).mode & 0o111 == 0o111,
{
    let m = source.mode;
    assert((m | 0o111) & 0o111 == 0o111) by (bit_vector);
}

} // verus!
