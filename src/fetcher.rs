//! The fetch pass, as a machine that app code drives: each step records the
//! answer to the previous query in the cache and names the next lookup that
//! the fetch list needs and the cache lacks, until none is left.

use vstd::prelude::*;
use crate::cache::{issue_numbers, with_issues, IssueData};
use crate::data::{Issue, IssueId};
use crate::input::{FetchList, IssueKey, LabelKey};
use crate::repo::Repo;

verus! {

/// A lookup to make at the issue tracker.
#[derive(Debug, PartialEq, Eq)]
pub enum FetchRequest {
    /// All issues that carry a label.
    Label { repo: Repo, label: String },
    /// One issue or pull request.
    Issue { repo: Repo, id: IssueId },
}

/// What the driver hands to a step: nothing yet, or the answer to a lookup.
#[derive(Debug, PartialEq, Eq)]
pub enum FetchEvent {
    Start,
    Labeled { repo: Repo, label: String, issues: Vec<Issue> },
    Found { repo: Repo, id: IssueId, issue: Issue },
}

/// What a step asks of the driver.
#[derive(Debug, PartialEq, Eq)]
pub enum FetchAction {
    Query(FetchRequest),
    /// The cache holds every lookup of the list; whether this pass stored anything.
    Finished(bool),
}

/// The cache holds every lookup that the fetch list names.
pub open spec fn fetch_complete(c: IssueData, fl: FetchList) -> bool {
    &&& forall|i: int| 0 <= i < fl.label_keys().len() ==> c.label_map().contains_key(#[trigger] fl.label_keys()[i])
    &&& forall|i: int| 0 <= i < fl.issue_keys().len() ==> c.issue_map().contains_key(#[trigger] fl.issue_keys()[i])
}

/// `key` is the first label of the list that the cache lacks.
pub open spec fn first_missing_label(c: IssueData, fl: FetchList, key: LabelKey) -> bool {
    exists|i: int| {
        &&& 0 <= i < fl.label_keys().len()
        &&& fl.label_keys()[i] == key
        &&& !c.label_map().contains_key(key)
        &&& forall|j: int| 0 <= j < i ==> c.label_map().contains_key(#[trigger] fl.label_keys()[j])
    }
}

/// Every label of the list is cached, and `key` is the first issue that the cache lacks.
pub open spec fn first_missing_issue(c: IssueData, fl: FetchList, key: IssueKey) -> bool {
    &&& forall|i: int| 0 <= i < fl.label_keys().len() ==> c.label_map().contains_key(#[trigger] fl.label_keys()[i])
    &&& exists|i: int| {
        &&& 0 <= i < fl.issue_keys().len()
        &&& fl.issue_keys()[i] == key
        &&& !c.issue_map().contains_key(key)
        &&& forall|j: int| 0 <= j < i ==> c.issue_map().contains_key(#[trigger] fl.issue_keys()[j])
    }
}

/// The lookup that the cache should make next: the first label it lacks, else the first issue.
pub open spec fn is_next_request(c: IssueData, fl: FetchList, r: FetchRequest) -> bool {
    match r {
        FetchRequest::Label { repo, label } => first_missing_label(c, fl, (repo@, label@)),
        FetchRequest::Issue { repo, id } => first_missing_issue(c, fl, (repo@, id)),
    }
}

/// Whether recording an event stores anything.
pub open spec fn event_changes(c: IssueData, e: FetchEvent) -> bool {
    match e {
        FetchEvent::Start => false,
        FetchEvent::Labeled { repo, label, issues } => !c.label_map().contains_key((repo@, label@)),
        FetchEvent::Found { repo, id, issue } => !c.issue_map().contains_key((repo@, id)),
    }
}

/// The issues of the cache once an event is recorded.
pub open spec fn issues_after(c: IssueData, e: FetchEvent) -> Map<IssueKey, Issue> {
    if !event_changes(c, e) {
        c.issue_map()
    } else {
        match e {
            FetchEvent::Labeled { repo, label, issues } => with_issues(c.issue_map(), repo@, issues@),
            FetchEvent::Found { repo, id, issue } => c.issue_map().insert((repo@, id), issue),
            FetchEvent::Start => c.issue_map(),
        }
    }
}

/// The labels of the cache once an event is recorded.
pub open spec fn labels_after(c: IssueData, e: FetchEvent) -> Map<LabelKey, Seq<IssueId>> {
    if !event_changes(c, e) {
        c.label_map()
    } else {
        match e {
            FetchEvent::Labeled { repo, label, issues } => c.label_map().insert((repo@, label@), issue_numbers(issues@)),
            _ => c.label_map(),
        }
    }
}

/// A fetch pass in progress: whether it has stored anything so far.
#[derive(Debug, PartialEq, Eq)]
pub struct FetchSession {
    pub updated: bool,
}

/// What one step does: it records the event, notes whether that stored
/// anything, and then asks for the next lookup or finishes when none is left.
pub open spec fn step_post(
    s0: FetchSession,
    c0: IssueData,
    fl: FetchList,
    e: FetchEvent,
    s1: FetchSession,
    c1: IssueData,
    r: FetchAction,
) -> bool {
    &&& c1.wf()
    &&& c1.issue_map() == issues_after(c0, e)
    &&& c1.label_map() == labels_after(c0, e)
    &&& s1.updated == (s0.updated || event_changes(c0, e))
    &&& (r is Finished <==> fetch_complete(c1, fl))
    &&& (r matches FetchAction::Finished(u) ==> u == s1.updated)
    &&& (r matches FetchAction::Query(q) ==> is_next_request(c1, fl, q))
}

impl FetchSession {
    pub fn new() -> (r: FetchSession)
        ensures
            !r.updated,
    {
        FetchSession { updated: false }
    }

    /// Records `event` in `cache` and says what to do next.
    pub fn step(&mut self, cache: &mut IssueData, fetch_list: &FetchList, event: FetchEvent) -> (r: FetchAction)
        requires
            old(cache).wf(),
        ensures
            step_post(*old(self), *old(cache), *fetch_list, event, *final(self), *final(cache), r),
    {
        let ghost c0 = *cache;
        let ghost e = event;
        let changed = match event {
            FetchEvent::Start => false,
            FetchEvent::Labeled { repo, label, issues } => cache.insert_label(repo, label, issues),
            FetchEvent::Found { repo, id, issue } => cache.insert_issue(repo, id, issue),
        };
        assert(changed == event_changes(c0, e));
        self.updated = self.updated || changed;
        match next_request(cache, fetch_list) {
            Some(q) => FetchAction::Query(q),
            None => FetchAction::Finished(self.updated),
        }
    }
}

/// The first lookup of the list that the cache lacks: labels before issues.
pub fn next_request(cache: &IssueData, fetch_list: &FetchList) -> (r: Option<FetchRequest>)
    requires
        cache.wf(),
    ensures
        r is None <==> fetch_complete(*cache, *fetch_list),
        r matches Some(q) ==> is_next_request(*cache, *fetch_list, q),
{
    let mut i: usize = 0;
    while i < fetch_list.labels.len()
        invariant
            cache.wf(),
            i <= fetch_list.labels@.len(),
            forall|j: int| 0 <= j < i ==> cache.label_map().contains_key(#[trigger] fetch_list.label_keys()[j]),
        decreases fetch_list.labels@.len() - i,
    {
        let (repo, label) = &fetch_list.labels[i];
        if !cache.contains_label(repo, label.as_str()) {
            let q = FetchRequest::Label { repo: repo.clone(), label: label.clone() };
            assert(fetch_list.label_keys()[i as int] == (repo@, label@));
            assert(!fetch_complete(*cache, *fetch_list));
            return Some(q);
        }
        i = i + 1;
    }
    let mut i: usize = 0;
    while i < fetch_list.issues.len()
        invariant
            cache.wf(),
            i <= fetch_list.issues@.len(),
            forall|j: int| 0 <= j < fetch_list.label_keys().len() ==> cache.label_map().contains_key(#[trigger] fetch_list.label_keys()[j]),
            forall|j: int| 0 <= j < i ==> cache.issue_map().contains_key(#[trigger] fetch_list.issue_keys()[j]),
        decreases fetch_list.issues@.len() - i,
    {
        let (repo, id) = &fetch_list.issues[i];
        if !cache.contains_issue(repo, *id) {
            let q = FetchRequest::Issue { repo: repo.clone(), id: *id };
            assert(fetch_list.issue_keys()[i as int] == (repo@, *id));
            assert(!fetch_complete(*cache, *fetch_list));
            return Some(q);
        }
        i = i + 1;
    }
    None
}

/// Fetching twice with the same list: when the last step of a pass has
/// finished it, the first step of a new pass over the same list asks for
/// nothing, stores nothing and reports no update.
pub proof fn lemma_fetch_twice(
    s0: FetchSession,
    c0: IssueData,
    fl: FetchList,
    e: FetchEvent,
    s1: FetchSession,
    c1: IssueData,
    u: bool,
    s2: FetchSession,
    c2: IssueData,
    r: FetchAction,
)
    requires
        step_post(s0, c0, fl, e, s1, c1, FetchAction::Finished(u)),
        step_post(FetchSession { updated: false }, c1, fl, FetchEvent::Start, s2, c2, r),
    ensures
        r == FetchAction::Finished(false),
        !s2.updated,
        c2.issue_map() == c1.issue_map(),
        c2.label_map() == c1.label_map(),
{
}

} // verus!
