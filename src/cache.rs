//! The issue cache: what the tracker said about labels and issues, kept
//! between runs. It only grows: a key, once present, keeps its value.

use vstd::prelude::*;
use crate::assoc::{assoc_map, keys_unique, lemma_assoc_absent, lemma_assoc_at, lemma_assoc_push};
use crate::data::{Issue, IssueId};
use crate::input::{IssueKey, LabelKey};
use crate::repo::{Repo, RepoView};

verus! {

/// A label of a repository and the issues that carry it, in order.
pub type LabelEntry = ((Repo, String), Vec<IssueId>);

/// An issue of a repository and its record.
pub type IssueEntry = ((Repo, IssueId), Issue);

pub open spec fn label_entry_view(e: LabelEntry) -> (LabelKey, Seq<IssueId>) {
    ((e.0.0@, e.0.1@), e.1@)
}

pub open spec fn issue_entry_view(e: IssueEntry) -> (IssueKey, Issue) {
    ((e.0.0@, e.0.1), e.1)
}

pub open spec fn label_entries_view(s: Seq<LabelEntry>) -> Seq<(LabelKey, Seq<IssueId>)> {
    s.map_values(|e: LabelEntry| label_entry_view(e))
}

pub open spec fn issue_entries_view(s: Seq<IssueEntry>) -> Seq<(IssueKey, Issue)> {
    s.map_values(|e: IssueEntry| issue_entry_view(e))
}

/// Every issue that a label lists is cached under the label's repository.
pub open spec fn labels_closed(labels: Seq<(LabelKey, Seq<IssueId>)>, issues: Map<IssueKey, Issue>) -> bool {
    forall|i: int, j: int|
        0 <= i < labels.len() && 0 <= j < labels[i].1.len() ==> issues.contains_key(
            (labels[i].0.0, #[trigger] labels[i].1[j]),
        )
}

/// Lists of entries that make a cache: no key twice, every listed issue cached.
pub open spec fn entries_valid(labels: Seq<(LabelKey, Seq<IssueId>)>, issues: Seq<(IssueKey, Issue)>) -> bool {
    &&& keys_unique(labels)
    &&& keys_unique(issues)
    &&& labels_closed(labels, assoc_map(issues))
}

/// The issues of a label lookup stored under `repo`; an issue already present keeps its record.
pub open spec fn with_issues(m: Map<IssueKey, Issue>, repo: RepoView, s: Seq<Issue>) -> Map<IssueKey, Issue>
    decreases s.len(),
{
    if s.len() == 0 {
        m
    } else {
        let m2 = with_issues(m, repo, s.drop_last());
        let k = (repo, s.last().number);
        if m2.contains_key(k) {
            m2
        } else {
            m2.insert(k, s.last())
        }
    }
}

/// The numbers of a list of issues.
pub open spec fn issue_numbers(s: Seq<Issue>) -> Seq<IssueId> {
    s.map_values(|x: Issue| x.number)
}

/// The cache of label lookups and issue records.
#[derive(Debug, PartialEq, Eq)]
pub struct IssueData {
    labels: Vec<LabelEntry>,
    issues: Vec<IssueEntry>,
}

impl IssueData {
    /// The label entries, in the order they were stored.
    pub closed spec fn label_seq(&self) -> Seq<(LabelKey, Seq<IssueId>)> {
        label_entries_view(self.labels@)
    }

    /// The issue entries, in the order they were stored.
    pub closed spec fn issue_seq(&self) -> Seq<(IssueKey, Issue)> {
        issue_entries_view(self.issues@)
    }

    pub open spec fn label_map(&self) -> Map<LabelKey, Seq<IssueId>> {
        assoc_map(self.label_seq())
    }

    pub open spec fn issue_map(&self) -> Map<IssueKey, Issue> {
        assoc_map(self.issue_seq())
    }

    pub open spec fn wf(&self) -> bool {
        entries_valid(self.label_seq(), self.issue_seq())
    }

    /// An empty cache, for a first run.
    pub fn new() -> (r: IssueData)
        ensures
            r.wf(),
            r.label_seq().len() == 0,
            r.issue_seq().len() == 0,
            r.label_map().dom().is_empty(),
            r.issue_map().dom().is_empty(),
    {
        let r = IssueData { labels: Vec::new(), issues: Vec::new() };
        assert(r.label_map().dom() =~= Set::empty());
        assert(r.issue_map().dom() =~= Set::empty());
        r
    }

    fn issue_index(&self, repo: &Repo, id: IssueId) -> (r: Option<usize>)
        ensures
            r matches Some(i) ==> i < self.issue_seq().len() && self.issue_seq()[i as int].0 == (repo@, id),
            r is None ==> forall|i: int| 0 <= i < self.issue_seq().len() ==> self.issue_seq()[i].0 != (repo@, id),
    {
        let mut i: usize = 0;
        while i < self.issues.len()
            invariant
                i <= self.issues@.len(),
                forall|j: int| 0 <= j < i ==> self.issue_seq()[j].0 != (repo@, id),
            decreases self.issues@.len() - i,
        {
            let e = &self.issues[i];
            if e.0.0.same_as(repo) && e.0.1 == id {
                return Some(i);
            }
            i = i + 1;
        }
        None
    }

    fn label_index(&self, repo: &Repo, label: &str) -> (r: Option<usize>)
        ensures
            r matches Some(i) ==> i < self.label_seq().len() && self.label_seq()[i as int].0 == (repo@, label@),
            r is None ==> forall|i: int| 0 <= i < self.label_seq().len() ==> self.label_seq()[i].0 != (repo@, label@),
    {
        let key = String::from_str(label);
        let mut i: usize = 0;
        while i < self.labels.len()
            invariant
                i <= self.labels@.len(),
                forall|j: int| 0 <= j < i ==> self.label_seq()[j].0 != (repo@, label@),
                key@ == label@,
            decreases self.labels@.len() - i,
        {
            let e = &self.labels[i];
            if e.0.0.same_as(repo) && e.0.1 == key {
                return Some(i);
            }
            i = i + 1;
        }
        None
    }

    /// Whether the issue is cached.
    pub fn contains_issue(&self, repo: &Repo, id: IssueId) -> (r: bool)
        requires
            self.wf(),
        ensures
            r == self.issue_map().contains_key((repo@, id)),
    {
        match self.issue_index(repo, id) {
            Some(i) => {
                proof { lemma_assoc_at(self.issue_seq(), i as int); }
                true
            },
            None => {
                proof { lemma_assoc_absent(self.issue_seq(), (repo@, id)); }
                false
            },
        }
    }

    /// Whether the label lookup is cached.
    pub fn contains_label(&self, repo: &Repo, label: &str) -> (r: bool)
        requires
            self.wf(),
        ensures
            r == self.label_map().contains_key((repo@, label@)),
    {
        match self.label_index(repo, label) {
            Some(i) => {
                proof { lemma_assoc_at(self.label_seq(), i as int); }
                true
            },
            None => {
                proof { lemma_assoc_absent(self.label_seq(), (repo@, label@)); }
                false
            },
        }
    }

    /// The cached record of an issue.
    pub fn get_issue(&self, repo: &Repo, id: IssueId) -> (r: Option<Issue>)
        requires
            self.wf(),
        ensures
            r == if self.issue_map().contains_key((repo@, id)) {
                Some(self.issue_map()[(repo@, id)])
            } else {
                None::<Issue>
            },
    {
        match self.issue_index(repo, id) {
            Some(i) => {
                proof { lemma_assoc_at(self.issue_seq(), i as int); }
                Some(self.issues[i].1.clone())
            },
            None => {
                proof { lemma_assoc_absent(self.issue_seq(), (repo@, id)); }
                None
            },
        }
    }

    /// The cached issue numbers of a label.
    pub fn get_label(&self, repo: &Repo, label: &str) -> (r: Option<&Vec<IssueId>>)
        requires
            self.wf(),
        ensures
            r is Some == self.label_map().contains_key((repo@, label@)),
            r matches Some(v) ==> v@ == self.label_map()[(repo@, label@)],
    {
        match self.label_index(repo, label) {
            Some(i) => {
                proof { lemma_assoc_at(self.label_seq(), i as int); }
                Some(&self.labels[i].1)
            },
            None => {
                proof { lemma_assoc_absent(self.label_seq(), (repo@, label@)); }
                None
            },
        }
    }

    /// Stores an issue record unless the issue is cached already; says whether it stored it.
    pub fn insert_issue(&mut self, repo: Repo, id: IssueId, issue: Issue) -> (r: bool)
        requires
            old(self).wf(),
        ensures
            final(self).wf(),
            r == !old(self).issue_map().contains_key((repo@, id)),
            final(self).issue_map() == if r {
                old(self).issue_map().insert((repo@, id), issue)
            } else {
                old(self).issue_map()
            },
            final(self).label_seq() == old(self).label_seq(),
    {
        if self.contains_issue(&repo, id) {
            return false;
        }
        let ghost k = (repo@, id);
        let ghost before = self.issue_seq();
        self.issues.push(((repo, id), issue));
        proof {
            assert(self.issue_seq() =~= before.push((k, issue)));
            lemma_assoc_push(before, k, issue);
            assert(labels_closed(self.label_seq(), self.issue_map()));
        }
        true
    }

    /// Stores what a label lookup returned, unless the label is cached already:
    /// each issue that is not cached yet, and the label with the numbers of its
    /// issues in order. Says whether it stored the label.
    pub fn insert_label(&mut self, repo: Repo, label: String, issues: Vec<Issue>) -> (r: bool)
        requires
            old(self).wf(),
        ensures
            final(self).wf(),
            r == !old(self).label_map().contains_key((repo@, label@)),
            r ==> final(self).issue_map() == with_issues(old(self).issue_map(), repo@, issues@),
            r ==> final(self).label_map() == old(self).label_map().insert((repo@, label@), issue_numbers(issues@)),
            !r ==> final(self).issue_map() == old(self).issue_map(),
            !r ==> final(self).label_map() == old(self).label_map(),
    {
        if self.contains_label(&repo, label.as_str()) {
            return false;
        }
        let ghost m0 = self.issue_map();
        let ghost labels0 = self.label_seq();
        let mut ids: Vec<IssueId> = Vec::new();
        let mut i: usize = 0;
        while i < issues.len()
            invariant
                i <= issues@.len(),
                self.wf(),
                self.label_seq() == labels0,
                self.issue_map() == with_issues(m0, repo@, issues@.subrange(0, i as int)),
                ids@ == issue_numbers(issues@.subrange(0, i as int)),
                forall|j: int| 0 <= j < i ==> self.issue_map().contains_key((repo@, #[trigger] ids@[j])),
            decreases issues@.len() - i,
        {
            let x = &issues[i];
            let ghost pre = issues@.subrange(0, i + 1);
            proof {
                assert(pre.drop_last() =~= issues@.subrange(0, i as int));
                assert(pre.last() == issues@[i as int]);
            }
            self.insert_issue(repo.clone(), x.number, x.clone());
            ids.push(x.number);
            proof {
                assert(ids@ =~= issue_numbers(pre));
            }
            i = i + 1;
        }
        proof {
            assert(issues@.subrange(0, i as int) =~= issues@);
        }
        let ghost key = (repo@, label@);
        let ghost entry = (key, ids@);
        assert(!assoc_map(labels0).contains_key(key));
        self.labels.push(((repo, label), ids));
        proof {
            assert(self.label_seq() =~= labels0.push(entry));
            lemma_assoc_push(labels0, key, ids@);
            let ls = self.label_seq();
            assert forall|a: int, b: int| 0 <= a < ls.len() && 0 <= b < ls[a].1.len()
                implies self.issue_map().contains_key((ls[a].0.0, #[trigger] ls[a].1[b])) by {
                if a < labels0.len() {
                    assert(ls[a] == labels0[a]);
                } else {
                    assert(ls[a].1[b] == ids@[b]);
                }
            }
        }
        true
    }

    /// The label entries, to be saved.
    pub fn label_entries(&self) -> (r: &Vec<LabelEntry>)
        ensures
            label_entries_view(r@) == self.label_seq(),
    {
        &self.labels
    }

    /// The issue entries, to be saved.
    pub fn issue_entries(&self) -> (r: &Vec<IssueEntry>)
        ensures
            issue_entries_view(r@) == self.issue_seq(),
    {
        &self.issues
    }

    fn issue_keys_unique(&self) -> (r: bool)
        ensures
            r == keys_unique(self.issue_seq()),
    {
        let n = self.issues.len();
        let mut i: usize = 0;
        while i < n
            invariant
                n == self.issue_seq().len(),
                i <= n,
                forall|a: int, b: int| 0 <= b < a < i ==> self.issue_seq()[a].0 != self.issue_seq()[b].0,
            decreases n - i,
        {
            let mut j: usize = 0;
            while j < i
                invariant
                    n == self.issue_seq().len(),
                    j <= i < n,
                    forall|b: int| 0 <= b < j ==> self.issue_seq()[i as int].0 != self.issue_seq()[b].0,
                decreases i - j,
            {
                let a = &self.issues[i];
                let b = &self.issues[j];
                if a.0.0.same_as(&b.0.0) && a.0.1 == b.0.1 {
                    assert(self.issue_seq()[i as int].0 == self.issue_seq()[j as int].0);
                    return false;
                }
                j = j + 1;
            }
            i = i + 1;
        }
        let ghost s = self.issue_seq();
        assert forall|a: int, b: int| 0 <= a < s.len() && 0 <= b < s.len() && #[trigger] s[a].0 == #[trigger] s[b].0 implies a == b by {
            if a < b {
                assert(s[b].0 != s[a].0);
            } else if b < a {
                assert(s[a].0 != s[b].0);
            }
        }
        true
    }

    fn label_keys_unique(&self) -> (r: bool)
        ensures
            r == keys_unique(self.label_seq()),
    {
        let n = self.labels.len();
        let mut i: usize = 0;
        while i < n
            invariant
                n == self.label_seq().len(),
                i <= n,
                forall|a: int, b: int| 0 <= b < a < i ==> self.label_seq()[a].0 != self.label_seq()[b].0,
            decreases n - i,
        {
            let mut j: usize = 0;
            while j < i
                invariant
                    n == self.label_seq().len(),
                    j <= i < n,
                    forall|b: int| 0 <= b < j ==> self.label_seq()[i as int].0 != self.label_seq()[b].0,
                decreases i - j,
            {
                let a = &self.labels[i];
                let b = &self.labels[j];
                if a.0.0.same_as(&b.0.0) && a.0.1 == b.0.1 {
                    assert(self.label_seq()[i as int].0 == self.label_seq()[j as int].0);
                    return false;
                }
                j = j + 1;
            }
            i = i + 1;
        }
        let ghost s = self.label_seq();
        assert forall|a: int, b: int| 0 <= a < s.len() && 0 <= b < s.len() && #[trigger] s[a].0 == #[trigger] s[b].0 implies a == b by {
            if a < b {
                assert(s[b].0 != s[a].0);
            } else if b < a {
                assert(s[a].0 != s[b].0);
            }
        }
        true
    }

    fn labels_closed_check(&self) -> (r: bool)
        requires
            keys_unique(self.issue_seq()),
        ensures
            r == labels_closed(self.label_seq(), self.issue_map()),
    {
        let mut i: usize = 0;
        while i < self.labels.len()
            invariant
                keys_unique(self.issue_seq()),
                i <= self.label_seq().len(),
                forall|a: int, b: int| 0 <= a < i && 0 <= b < self.label_seq()[a].1.len()
                    ==> self.issue_map().contains_key((self.label_seq()[a].0.0, #[trigger] self.label_seq()[a].1[b])),
            decreases self.label_seq().len() - i,
        {
            let e = &self.labels[i];
            let mut j: usize = 0;
            while j < e.1.len()
                invariant
                    keys_unique(self.issue_seq()),
                    i < self.label_seq().len(),
                    *e == self.labels@[i as int],
                    j <= e.1@.len(),
                    forall|b: int| 0 <= b < j ==> self.issue_map().contains_key((e.0.0@, #[trigger] e.1@[b])),
                decreases e.1@.len() - j,
            {
                match self.issue_index(&e.0.0, e.1[j]) {
                    Some(k) => {
                        proof { lemma_assoc_at(self.issue_seq(), k as int); }
                    },
                    None => {
                        proof { lemma_assoc_absent(self.issue_seq(), (e.0.0@, e.1@[j as int])); }
                        assert(self.label_seq()[i as int].1[j as int] == e.1@[j as int]);
                        return false;
                    },
                }
                j = j + 1;
            }
            i = i + 1;
        }
        true
    }

    /// Rebuilds a cache from saved entries. Entries that repeat a key, or a
    /// label that lists an issue with no entry, make no cache.
    pub fn from_entries(labels: Vec<LabelEntry>, issues: Vec<IssueEntry>) -> (r: Option<IssueData>)
        ensures
            r is Some <==> entries_valid(label_entries_view(labels@), issue_entries_view(issues@)),
            r matches Some(d) ==> d.label_seq() == label_entries_view(labels@)
                && d.issue_seq() == issue_entries_view(issues@),
    {
        let d = IssueData { labels, issues };
        if !d.label_keys_unique() || !d.issue_keys_unique() {
            return None;
        }
        if !d.labels_closed_check() {
            return None;
        }
        Some(d)
    }
}

/// Saving a cache and loading what was saved gives back the same cache: the
/// entries that `label_entries` and `issue_entries` hand out are accepted by
/// `from_entries`, and the cache it rebuilds from them has the same labels
/// and issues, in the same order.
pub proof fn lemma_save_load_round_trip(c: IssueData, labels: Seq<LabelEntry>, issues: Seq<IssueEntry>)
    requires
        c.wf(),
        label_entries_view(labels) == c.label_seq(),
        issue_entries_view(issues) == c.issue_seq(),
    ensures
        entries_valid(label_entries_view(labels), issue_entries_view(issues)),
        forall|d: IssueData|
            #[trigger] d.label_seq() == label_entries_view(labels) && d.issue_seq() == issue_entries_view(issues)
                ==> d.wf() && d.label_seq() == c.label_seq() && d.issue_seq() == c.issue_seq()
                && d.label_map() == c.label_map() && d.issue_map() == c.issue_map(),
{
}

/// In a well-formed cache, every issue that a cached label lists is cached too.
pub proof fn lemma_label_ids_cached(c: IssueData, key: LabelKey)
    requires
        c.wf(),
        c.label_map().contains_key(key),
    ensures
        forall|j: int| 0 <= j < c.label_map()[key].len() ==> c.issue_map().contains_key((key.0, #[trigger] c.label_map()[key][j])),
{
    let ls = c.label_seq();
    let i = choose|i: int| 0 <= i < ls.len() && ls[i].0 == key;
    lemma_assoc_at(ls, i);
    assert forall|j: int| 0 <= j < c.label_map()[key].len() implies c.issue_map().contains_key((key.0, #[trigger] c.label_map()[key][j])) by {
        assert(ls[i].1[j] == c.label_map()[key][j]);
    }
}

} // verus!
