//! Repositories of the issue tracker.

use vstd::prelude::*;

verus! {

/// A repository: the namespace in which issue numbers are unique.
#[derive(Debug, PartialEq, Eq, Hash)]
pub struct Repo {
    pub owner: String,
    pub name: String,
}

/// A repository as its owner and name.
pub type RepoView = (Seq<char>, Seq<char>);

impl View for Repo {
    type V = RepoView;

    open spec fn view(&self) -> RepoView {
        (self.owner@, self.name@)
    }
}

impl Clone for Repo {
    fn clone(&self) -> (r: Self)
        ensures
            r == *self,
    {
        Repo { owner: self.owner.clone(), name: self.name.clone() }
    }
}

/// The repository that holds RFC pull requests.
pub open spec fn rfc_repo_view() -> RepoView {
    ("rust-lang"@, "rfcs"@)
}

/// The repository of the compiler: tracking issues, labels and stabilization PRs.
pub open spec fn rustc_repo_view() -> RepoView {
    ("rust-lang"@, "rust"@)
}

impl Repo {
    pub fn new(owner: &str, name: &str) -> (r: Repo)
        ensures
            r@ == (owner@, name@),
    {
        Repo { owner: String::from_str(owner), name: String::from_str(name) }
    }

    /// Whether two values name the same repository.
    pub fn same_as(&self, other: &Repo) -> (r: bool)
        ensures
            r == (self@ == other@),
    {
        self.owner == other.owner && self.name == other.name
    }

    /// The repository that holds RFC pull requests.
    pub fn rfcs() -> (r: Repo)
        ensures
            r@ == rfc_repo_view(),
    {
        Repo::new("rust-lang", "rfcs")
    }

    /// The repository of the compiler.
    pub fn rustc() -> (r: Repo)
        ensures
            r@ == rustc_repo_view(),
    {
        Repo::new("rust-lang", "rust")
    }
}

} // verus!
