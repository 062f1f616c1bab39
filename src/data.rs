//! Records of the issue tracker and the failures of the pipeline.

use vstd::prelude::*;

verus! {

/// The number of an issue or pull request within its repository.
pub type IssueId = u32;

/// An issue or pull request as the tracker reported it.
#[derive(Debug, PartialEq, Eq)]
pub struct Issue {
    pub number: u32,
    pub title: String,
    pub open: bool,
}

impl Clone for Issue {
    fn clone(&self) -> (r: Self)
        ensures
            r == *self,
    {
        Issue { number: self.number, title: self.title.clone(), open: self.open }
    }
}

/// A link shown beside a feature.
#[derive(Debug, PartialEq, Eq)]
pub struct Link {
    pub text: String,
    pub url: String,
}

impl Clone for Link {
    fn clone(&self) -> (r: Self)
        ensures
            r == *self,
    {
        Link { text: self.text.clone(), url: self.url.clone() }
    }
}

/// Why a step of the pipeline failed.
#[derive(Clone, Copy, Debug, PartialEq, Eq, Structural)]
pub enum DataError {
    /// An RFC reference does not start with an issue number.
    MalformedReference,
    /// A version string cannot be read as a release version.
    MalformedVersion,
    /// The cache has no record that a reference needs.
    MissingCacheEntry,
}

} // verus!
