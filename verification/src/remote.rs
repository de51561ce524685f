//! The remote side of the tool, as far as it is computation: the release
//! URL template, the classification of a download's outcome, and the tag
//! list of the repository-tags endpoint. The requests themselves are made
//! outside the library; this module turns their plain results into
//! decisions.

use vstd::prelude::*;
use vstd::string::*;
use crate::error::Error;
use crate::text::{has_prefix, str_has_prefix, lemma_filter_push};

verus! {

/// The fixed repository-tags endpoint, queried with the tool's fixed
/// user-agent.
pub fn github_tags_url() -> (r: &'static str)
    ensures
        r@ == "https://api.github.com/repos/oven-sh/bun/tags"@,
{
    "https://api.github.com/repos/oven-sh/bun/tags"
}

/// The user-agent string the remote API requires.
pub fn user_agent() -> (r: &'static str)
    ensures
        r@ == "bum-version-manager-app"@,
{
    "bum-version-manager-app"
}

/// The release-asset URL for a normalized version on a platform.
pub open spec fn download_url_spec(version: Seq<char>, platform: Seq<char>) -> Seq<char> {
    "https://github.com/oven-sh/bun/releases/download/bun-v"@ + version + "/bun-"@ + platform
        + ".zip"@
}

pub fn download_url(version: &str, platform: &str) -> (r: String)
    ensures
        r@ == download_url_spec(version@, platform@),
{
    let mut out = String::from_str("https://github.com/oven-sh/bun/releases/download/bun-v");
    out.append(version);
    out.append("/bun-");
    out.append(platform);
    out.append(".zip");
    proof {
        assert(out@ =~= download_url_spec(version@, platform@));
    }
    out
}

/// What came of a GET for an archive: a status line, or no response at
/// all.
#[derive(PartialEq, Eq, Structural, Clone, Copy, Debug)]
pub enum FetchOutcome {
    Status { code: u16 },
    TransportFailed,
}

/// Classifies a download's outcome: 200 is success, 404 means the version
/// does not exist upstream, any other status or a transport failure is a
/// generic failed request carrying the status if there was one.
pub fn classify_fetch(outcome: FetchOutcome, version: &str) -> (r: Result<(), Error>)
    ensures
        match r {
            Ok(_) => outcome == (FetchOutcome::Status { code: 200u16 }),
            Err(e) => match e {
                Error::RemoteNotFound { version: v } => outcome == (FetchOutcome::Status {
                    code: 404u16,
                }) && v@ == version@,
                Error::RemoteRequestFailed { status } => match status {
                    Some(code) => outcome == (FetchOutcome::Status { code }) && code != 200u16
                        && code != 404u16,
                    None => outcome == FetchOutcome::TransportFailed,
                },
                _ => false,
            },
        },
{
    match outcome {
        FetchOutcome::Status { code } => {
            if code == 200 {
                Ok(())
            } else if code == 404 {
                Err(Error::RemoteNotFound { version: String::from_str(version) })
            } else {
                Err(Error::RemoteRequestFailed { status: Some(code) })
            }
        },
        FetchOutcome::TransportFailed => Err(Error::RemoteRequestFailed { status: None }),
    }
}

/// The names held by a JSON array of objects each carrying a string
/// `name`; `None` when the text is not such an array. The parse is a
/// function of the text alone.
pub uninterp spec fn json_tag_names(s: Seq<char>) -> Option<Seq<Seq<char>>>;

/// Relies on serde_json::from_str and serde_json::Value::{as_array, get,
/// as_str}: parses the tag-endpoint response and hands back the `name`
/// field of each element, `None` when the text is not an array of objects
/// each holding a string `name`.
#[verifier::external_body]
fn parse_tag_names(body: &str) -> (r: Option<Vec<String>>)
    ensures
        match r {
            Some(names) => json_tag_names(body@) == Some(names.deep_view()),
            None => json_tag_names(body@) is None,
        },
{
    let value: serde_json::Value = serde_json::from_str(body).ok()?;
    let items = value.as_array()?;
    let mut names: Vec<String> = Vec::new();
    for item in items {
        names.push(item.get("name")?.as_str()?.to_string());
    }
    Some(names)
}

/// The labels that `list-remote` prints: the tags that carry the
/// release-tag prefix, in the order the remote returned them, each with
/// that prefix cut off.
pub open spec fn remote_version_labels(names: Seq<Seq<char>>) -> Seq<Seq<char>> {
    names.filter(|t: Seq<char>| has_prefix(t, "bun-"@)).map_values(
        |t: Seq<char>| t.subrange("bun-"@.len() as int, t.len() as int),
    )
}

#[verifier::loop_isolation(false)]
pub fn filter_remote_tags(tags: &Vec<String>) -> (r: Vec<String>)
    ensures
        r.deep_view() == remote_version_labels(tags.deep_view()),
{
    let ghost pred = |t: Seq<char>| has_prefix(t, "bun-"@);
    let ghost cut = |t: Seq<char>| t.subrange("bun-"@.len() as int, t.len() as int);
    let mut out: Vec<String> = Vec::new();
    proof {
        reveal_strlit("bun-");
        assert(tags.deep_view().take(0).filter(pred).map_values(cut) =~= Seq::<Seq<char>>::empty());
    }
    let mut i: usize = 0;
    while i < tags.len()
        invariant
            i <= tags@.len(),
            out.deep_view() == tags.deep_view().take(i as int).filter(pred).map_values(cut),
        decreases tags@.len() - i,
    {
        let tag: &String = &tags[i];
        proof {
            lemma_filter_push(tags.deep_view().take(i as int), pred, tags.deep_view()[i as int]);
            assert(tags.deep_view().take(i + 1) =~= tags.deep_view().take(i as int).push(
                tags.deep_view()[i as int],
            ));
        }
        if str_has_prefix(tag.as_str(), "bun-") {
            let n = tag.as_str().unicode_len();
            let label = tag.as_str().substring_char(4, n);
            out.push(String::from_str(label));
            proof {
                let prev = tags.deep_view().take(i as int).filter(pred);
                assert(prev.push(tags.deep_view()[i as int]).map_values(cut) =~= prev.map_values(
                    cut,
                ).push(cut(tags.deep_view()[i as int])));
            }
        }
        i += 1;
    }
    proof {
        assert(tags.deep_view().take(tags@.len() as int) =~= tags.deep_view());
    }
    out
}

/// The compute half of the remote tag listing: from the endpoint's
/// response text to the labels to print, `None` when the response is not
/// the expected array.
pub fn github_tags_from_json(body: &str) -> (r: Option<Vec<String>>)
    ensures
        match r {
            Some(labels) => json_tag_names(body@) matches Some(names) && labels.deep_view()
                == remote_version_labels(names),
            None => json_tag_names(body@) is None,
        },
{
    match parse_tag_names(body) {
        Some(names) => Some(filter_remote_tags(&names)),
        None => None,
    }
}

} // verus!
