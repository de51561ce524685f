//! The release-archive extractor's logic: scanning a ZIP archive's
//! entries for the one that holds the runtime binary. The archive is read
//! in memory through the zip crate, behind trusted declarations; the scan
//! itself is verified.

use vstd::prelude::*;
use vstd::string::*;
use std::io::Cursor;
use crate::error::Error;
use crate::text::{last_segment, last_segment_str, str_eq};

verus! {

#[verifier::external_type_specification]
#[verifier::external_body]
#[verifier::reject_recursive_types(R)]
pub struct ExZipArchive<R>(zip::ZipArchive<R>);

#[verifier::external_type_specification]
#[verifier::external_body]
#[verifier::reject_recursive_types(T)]
pub struct ExCursor<T>(Cursor<T>);

/// The sanitized name of each entry of an opened archive: `None` where
/// the entry's path is unsafe to use or its record cannot be read. The
/// table is fixed once the archive is open.
pub uninterp spec fn archive_entry_names(a: zip::ZipArchive<Cursor<Vec<u8>>>) -> Seq<
    Option<Seq<char>>,
>;

/// The decompressed bytes of each entry of an opened archive, `None`
/// where they cannot be read.
pub uninterp spec fn archive_entry_data(a: zip::ZipArchive<Cursor<Vec<u8>>>) -> Seq<
    Option<Seq<u8>>,
>;

/// The entry-name table that a byte string yields when it is opened as
/// an archive, `None` when it is not a readable archive: what an archive
/// holds is a function of its bytes alone.
pub uninterp spec fn zip_names_of(bytes: Seq<u8>) -> Option<Seq<Option<Seq<char>>>>;

/// The entry-data table of a byte string opened as an archive, `None`
/// when it is not a readable archive.
pub uninterp spec fn zip_data_of(bytes: Seq<u8>) -> Option<Seq<Option<Seq<u8>>>>;

/// Relies on zip::ZipArchive::new over an in-memory cursor: reads the
/// archive's central directory, `None` when the bytes are not a readable
/// archive. The opened archive's tables are the byte string's tables,
/// and both list the same entries.
#[verifier::external_body]
fn archive_from_bytes(bytes: Vec<u8>) -> (r: Option<zip::ZipArchive<Cursor<Vec<u8>>>>)
    ensures
        match r {
            Some(a) => zip_names_of(bytes@) == Some(archive_entry_names(a)) && zip_data_of(bytes@)
                == Some(archive_entry_data(a)) && archive_entry_names(a).len()
                == archive_entry_data(a).len(),
            None => zip_names_of(bytes@) is None && zip_data_of(bytes@) is None,
        },
{
    zip::ZipArchive::new(Cursor::new(bytes)).ok()
}

/// Relies on zip::ZipArchive::len: the number of entries.
#[verifier::external_body]
fn archive_len(a: &zip::ZipArchive<Cursor<Vec<u8>>>) -> (n: usize)
    ensures
        n == archive_entry_names(*a).len(),
{
    a.len()
}

/// Relies on zip::ZipArchive::by_index_raw and
/// zip::read::ZipFile::enclosed_name: the sanitized name of one entry.
/// The raw accessor reads the entry's record without opening its
/// contents, so it returns normally on every index, whatever the entry
/// holds. Reading seeks the cursor but the entry table stays as it is.
#[verifier::external_body]
fn entry_name(a: &mut zip::ZipArchive<Cursor<Vec<u8>>>, i: usize) -> (r: Option<String>)
    requires
        i < archive_entry_names(*old(a)).len(),
    ensures
        archive_entry_names(*final(a)) == archive_entry_names(*old(a)),
        archive_entry_data(*final(a)) == archive_entry_data(*old(a)),
        match r {
            Some(name) => archive_entry_names(*final(a))[i as int] == Some(name@),
            None => archive_entry_names(*final(a))[i as int] is None,
        },
{
    let file = a.by_index_raw(i).ok()?;
    let path = file.enclosed_name()?;
    Some(path.to_str()?.to_string())
}

/// Relies on zip::ZipArchive::by_index_decrypt and the Read impl of
/// zip::read::ZipFile: the decompressed bytes of one entry, `None` for
/// any entry that cannot be opened or read. The decrypting accessor
/// returns its password verdict as a value, so it returns normally on
/// every index, an entry that misstates its encryption included; on an
/// ordinary unencrypted entry the empty password is discarded and the
/// bytes come back plain.
#[verifier::external_body]
fn entry_data(a: &mut zip::ZipArchive<Cursor<Vec<u8>>>, i: usize) -> (r: Option<Vec<u8>>)
    requires
        i < archive_entry_names(*old(a)).len(),
    ensures
        archive_entry_names(*final(a)) == archive_entry_names(*old(a)),
        archive_entry_data(*final(a)) == archive_entry_data(*old(a)),
        match r {
            Some(data) => archive_entry_data(*final(a))[i as int] == Some(data@),
            None => archive_entry_data(*final(a))[i as int] is None,
        },
{
    let mut file = match a.by_index_decrypt(i, b"") {
        Ok(Ok(file)) => file,
        _ => return None,
    };
    let mut data: Vec<u8> = Vec::new();
    std::io::Read::read_to_end(&mut file, &mut data).ok()?;
    Some(data)
}

/// The name of the executable entry a release archive must hold.
pub fn bun_bin_name() -> (r: &'static str)
    ensures
        r@ == "bun"@,
{
    "bun"
}

/// Whether a sanitized entry path is the one that holds the runtime
/// binary: its final path segment is the executable's name. Entries
/// without a safe name never match; they are skipped.
pub open spec fn entry_matches(name: Option<Seq<char>>, bin: Seq<char>) -> bool {
    match name {
        Some(n) => last_segment(n) == bin,
        None => false,
    }
}

#[verifier::loop_isolation(false)]
fn collect_entry_names(a: &mut zip::ZipArchive<Cursor<Vec<u8>>>) -> (r: Vec<Option<String>>)
    ensures
        archive_entry_names(*final(a)) == archive_entry_names(*old(a)),
        archive_entry_data(*final(a)) == archive_entry_data(*old(a)),
        r.deep_view() == archive_entry_names(*final(a)),
{
    let n = archive_len(a);
    let mut r: Vec<Option<String>> = Vec::new();
    proof {
        assert(r.deep_view() =~= archive_entry_names(*a).take(0));
    }
    let mut i: usize = 0;
    while i < n
        invariant
            i <= n,
            n == archive_entry_names(*a).len(),
            archive_entry_names(*a) == archive_entry_names(*old(a)),
            archive_entry_data(*a) == archive_entry_data(*old(a)),
            r.deep_view() == archive_entry_names(*a).take(i as int),
        decreases n - i,
    {
        let ghost old_r = r.deep_view();
        let name = entry_name(a, i);
        r.push(name);
        proof {
            assert(r.deep_view() =~= old_r.push(r@[i as int].deep_view()));
            assert(archive_entry_names(*a).take(i + 1) =~= archive_entry_names(*a).take(
                i as int,
            ).push(archive_entry_names(*a)[i as int]));
        }
        i += 1;
    }
    proof {
        assert(archive_entry_names(*a).take(n as int) =~= archive_entry_names(*a));
    }
    r
}

/// The position of the first entry whose sanitized path ends with the
/// executable's name, if any entry's does.
pub open spec fn first_match(names: Seq<Option<Seq<char>>>, bin: Seq<char>) -> Option<int>
    decreases names.len(),
{
    if names.len() == 0 {
        None
    } else if entry_matches(names[0], bin) {
        Some(0int)
    } else {
        match first_match(names.drop_first(), bin) {
            Some(i) => Some(i + 1),
            None => None,
        }
    }
}

proof fn lemma_first_match_at(names: Seq<Option<Seq<char>>>, bin: Seq<char>, i: int)
    requires
        0 <= i < names.len(),
        entry_matches(names[i], bin),
        forall|k: int| 0 <= k < i ==> !entry_matches(names[k], bin),
    ensures
        first_match(names, bin) == Some(i),
    decreases i,
{
    if i > 0 {
        lemma_first_match_at(names.drop_first(), bin, i - 1);
    }
}

proof fn lemma_first_match_none(names: Seq<Option<Seq<char>>>, bin: Seq<char>)
    requires
        forall|k: int| 0 <= k < names.len() ==> !entry_matches(names[k], bin),
    ensures
        first_match(names, bin) is None,
    decreases names.len(),
{
    if names.len() > 0 {
        lemma_first_match_none(names.drop_first(), bin);
    }
}

/// The first entry whose sanitized path ends with the executable's name,
/// if any entry does.
pub fn find_binary_index(names: &Vec<Option<String>>, bin: &str) -> (r: Option<usize>)
    ensures
        match r {
            Some(i) => i < names@.len() && entry_matches(names.deep_view()[i as int], bin@)
                && forall|k: int|
                0 <= k < i ==> !entry_matches(names.deep_view()[k], bin@),
            None => forall|k: int|
                0 <= k < names@.len() ==> !entry_matches(names.deep_view()[k], bin@),
        },
        match r {
            Some(i) => first_match(names.deep_view(), bin@) == Some(i as int),
            None => first_match(names.deep_view(), bin@) is None,
        },
{
    let mut i: usize = 0;
    while i < names.len()
        invariant
            i <= names@.len(),
            forall|k: int| 0 <= k < i ==> !entry_matches(names.deep_view()[k], bin@),
        decreases names@.len() - i,
    {
        match &names[i] {
            Some(name) => {
                let seg = last_segment_str(name.as_str());
                if str_eq(seg.as_str(), bin) {
                    proof {
                        lemma_first_match_at(names.deep_view(), bin@, i as int);
                    }
                    return Some(i);
                }
                assert(!entry_matches(names.deep_view()[i as int], bin@));
            },
            None => {
                assert(!entry_matches(names.deep_view()[i as int], bin@));
            },
        }
        i += 1;
    }
    proof {
        lemma_first_match_none(names.deep_view(), bin@);
    }
    None
}

/// The extractor's compute half, on the archive's bytes: scan the entries
/// in order, skip those without a safe path, and hand back the bytes of
/// the first one whose path ends with the executable's name. The
/// not-found error comes exactly when the archive is readable and no
/// entry matches; an unreadable archive or an unreadable matched entry
/// is a local failure.
pub fn extract_binary(bytes: Vec<u8>) -> (r: Result<Vec<u8>, Error>)
    ensures
        r matches Err(e) ==> (e is BinaryNotFoundInArchive || e is LocalIOFailure),
        match zip_names_of(bytes@) {
            None => r matches Err(e) && e is LocalIOFailure,
            Some(names) => match first_match(names, "bun"@) {
                None => r matches Err(e) && e is BinaryNotFoundInArchive,
                Some(i) => match zip_data_of(bytes@)->0[i] {
                    Some(d) => r matches Ok(b) && b@ == d,
                    None => r matches Err(e) && e is LocalIOFailure,
                },
            },
        },
{
    let mut archive = match archive_from_bytes(bytes) {
        Some(a) => a,
        None => {
            return Err(
                Error::LocalIOFailure {
                    message: String::from_str("Failed to open the zip archive"),
                },
            );
        },
    };
    let names = collect_entry_names(&mut archive);
    match find_binary_index(&names, bun_bin_name()) {
        Some(i) => match entry_data(&mut archive, i) {
            Some(data) => Ok(data),
            None => Err(
                Error::LocalIOFailure {
                    message: String::from_str("Failed to read the binary entry of the zip file"),
                },
            ),
        },
        None => Err(Error::BinaryNotFoundInArchive),
    }
}

} // verus!
