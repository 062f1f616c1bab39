//! RFC references: a bare pull-request number, or the page name of a merged RFC.

use vstd::prelude::*;
use crate::data::{DataError, IssueId};
use crate::text::{before_first, decimal_u32, find_char, first_index_of, parse_u32};

verus! {

pub open spec fn pull_url_prefix() -> Seq<char> {
    "https://github.com/rust-lang/rfcs/pull/"@
}

pub open spec fn page_url_prefix() -> Seq<char> {
    "https://rust-lang.github.io/rfcs/"@
}

/// The number that a reference names: the digits before its first `-`.
pub open spec fn rfc_number(s: Seq<char>) -> Option<u32> {
    decimal_u32(before_first(s, '-'))
}

/// A reference with a page name (`<number>-<slug>[#fragment]`) names a merged RFC.
pub open spec fn rfc_merged(s: Seq<char>) -> bool {
    first_index_of(s, '-') is Some
}

/// From the first `#` on, or nothing when there is none.
pub open spec fn fragment(s: Seq<char>) -> Seq<char> {
    match first_index_of(s, '#') {
        Some(i) => s.subrange(i, s.len() as int),
        None => Seq::empty(),
    }
}

/// The address of what a reference names: the pull request of a bare number,
/// the rendered page of a merged RFC with its fragment kept.
pub open spec fn rfc_url(s: Seq<char>) -> Seq<char> {
    if rfc_merged(s) {
        page_url_prefix() + before_first(s, '#') + ".html"@ + fragment(s)
    } else {
        pull_url_prefix() + s
    }
}

/// A parsed RFC reference.
#[derive(Debug, PartialEq, Eq)]
pub struct Rfc {
    pub id: IssueId,
    pub url: String,
    pub merged: bool,
}

impl Rfc {
    /// Reads a reference as the feature data writes it.
    pub fn parse(s: &str) -> (r: Result<Rfc, DataError>)
        ensures
            rfc_number(s@) is None ==> r == Err::<Rfc, DataError>(DataError::MalformedReference),
            rfc_number(s@) matches Some(id) ==> r matches Ok(rfc) && rfc.id == id
                && rfc.url@ == rfc_url(s@) && rfc.merged == rfc_merged(s@),
    {
        let dash = find_char(s, '-');
        let id = match parse_rfc_for_id(s) {
            Some(id) => id,
            None => return Err(DataError::MalformedReference),
        };
        match dash {
            None => {
                let mut url = String::from_str("https://github.com/rust-lang/rfcs/pull/");
                url.append(s);
                Ok(Rfc { id, url, merged: false })
            },
            Some(_) => {
                let n = s.unicode_len();
                let hash = match find_char(s, '#') {
                    Some(h) => h,
                    None => n,
                };
                let page = s.substring_char(0, hash);
                let frag = s.substring_char(hash, n);
                assert(page@ == before_first(s@, '#'));
                assert(frag@ =~= fragment(s@));
                let mut url = String::from_str("https://rust-lang.github.io/rfcs/");
                url.append(page);
                url.append(".html");
                url.append(frag);
                Ok(Rfc { id, url, merged: true })
            },
        }
    }
}

/// The number that a reference names, if its digits before the first `-` read as one.
pub fn parse_rfc_for_id(rfc: &str) -> (r: Option<IssueId>)
    ensures
        r == rfc_number(rfc@),
{
    let n = rfc.unicode_len();
    let dash = match find_char(rfc, '-') {
        Some(d) => d,
        None => n,
    };
    let head = rfc.substring_char(0, dash);
    assert(head@ == before_first(rfc@, '-'));
    parse_u32(head)
}

} // verus!
