//! The feature tree as authored, and the lookups that it needs.

use vstd::prelude::*;
use crate::data::{DataError, IssueId, Link};
use crate::repo::{rfc_repo_view, rustc_repo_view, Repo, RepoView};
use crate::rfc::{parse_rfc_for_id, rfc_number};

verus! {

/// The version in which a feature became stable, and the PR that did it.
#[derive(Debug, PartialEq, Eq)]
pub struct Stabilization {
    pub version: String,
    pub pr: IssueId,
}

/// A feature: what it is called, what it refers to, and the features it depends on.
#[derive(Debug, PartialEq, Eq)]
pub struct Item {
    pub title: String,
    pub rfc: Option<String>,
    pub tracking: Option<IssueId>,
    pub issue_label: Option<String>,
    pub stabilized: Option<Stabilization>,
    pub unresolved: Option<String>,
    pub link: Option<Link>,
    pub deps: Vec<Item>,
}

/// The feature tree: named groups of features, in order.
#[derive(Debug, PartialEq, Eq)]
pub struct InputData(pub Vec<(String, Vec<Item>)>);

/// An issue or pull request of a repository.
pub type IssueKey = (RepoView, IssueId);

/// A label of a repository.
pub type LabelKey = (RepoView, Seq<char>);

/// The lookups that a feature tree needs.
#[derive(Debug, PartialEq, Eq)]
pub struct FetchList {
    pub labels: Vec<(Repo, String)>,
    pub issues: Vec<(Repo, IssueId)>,
}

impl FetchList {
    pub open spec fn label_keys(&self) -> Seq<LabelKey> {
        self.labels@.map_values(|e: (Repo, String)| (e.0@, e.1@))
    }

    pub open spec fn issue_keys(&self) -> Seq<IssueKey> {
        self.issues@.map_values(|e: (Repo, IssueId)| (e.0@, e.1))
    }
}

/// The issue that an RFC reference stands for, in the RFC repository.
pub open spec fn ref_keys(r: Option<String>) -> Seq<IssueKey> {
    match r {
        Some(s) => match rfc_number(s@) {
            Some(n) => seq![(rfc_repo_view(), n)],
            None => Seq::empty(),
        },
        None => Seq::empty(),
    }
}

/// The issues that a feature names itself, in the order rfc, tracking issue,
/// stabilization PR, unresolved RFC.
pub open spec fn own_issue_keys(item: Item) -> Seq<IssueKey> {
    ref_keys(item.rfc) + match item.tracking {
        Some(t) => seq![(rustc_repo_view(), t)],
        None => Seq::empty(),
    } + match item.stabilized {
        Some(st) => seq![(rustc_repo_view(), st.pr)],
        None => Seq::empty(),
    } + ref_keys(item.unresolved)
}

/// The label that a feature names itself.
pub open spec fn own_label_keys(item: Item) -> Seq<LabelKey> {
    match item.issue_label {
        Some(l) => seq![(rustc_repo_view(), l@)],
        None => Seq::empty(),
    }
}

/// Each RFC reference of the feature itself starts with a number.
pub open spec fn own_refs_valid(item: Item) -> bool {
    &&& (item.rfc matches Some(s) ==> rfc_number(s@) is Some)
    &&& (item.unresolved matches Some(s) ==> rfc_number(s@) is Some)
}

/// Each RFC reference in a feature and its dependencies starts with a number.
pub open spec fn node_refs_valid(item: Item) -> bool
    decreases item,
{
    &&& own_refs_valid(item)
    &&& forall|i: int| 0 <= i < item.deps@.len() ==> node_refs_valid(#[trigger] item.deps@[i])
}

pub open spec fn items_refs_valid(items: Seq<Item>) -> bool {
    forall|i: int| 0 <= i < items.len() ==> node_refs_valid(#[trigger] items[i])
}

pub open spec fn groups_refs_valid(groups: Seq<(String, Vec<Item>)>) -> bool {
    forall|g: int| 0 <= g < groups.len() ==> items_refs_valid(#[trigger] groups[g].1@)
}

/// The issues of a feature and of its dependencies, depth first.
pub open spec fn node_issue_keys(item: Item) -> Seq<IssueKey>
    decreases item, 1nat,
{
    own_issue_keys(item) + items_issue_keys(item.deps@)
}

pub open spec fn items_issue_keys(items: Seq<Item>) -> Seq<IssueKey>
    decreases items, 0nat,
{
    if items.len() == 0 {
        Seq::empty()
    } else {
        items_issue_keys(items.subrange(0, items.len() - 1)) + node_issue_keys(items[items.len() - 1])
    }
}

/// The labels of a feature and of its dependencies, depth first.
pub open spec fn node_label_keys(item: Item) -> Seq<LabelKey>
    decreases item, 1nat,
{
    own_label_keys(item) + items_label_keys(item.deps@)
}

pub open spec fn items_label_keys(items: Seq<Item>) -> Seq<LabelKey>
    decreases items, 0nat,
{
    if items.len() == 0 {
        Seq::empty()
    } else {
        items_label_keys(items.subrange(0, items.len() - 1)) + node_label_keys(items[items.len() - 1])
    }
}

pub open spec fn groups_issue_keys(groups: Seq<(String, Vec<Item>)>) -> Seq<IssueKey>
    decreases groups.len(),
{
    if groups.len() == 0 {
        Seq::empty()
    } else {
        groups_issue_keys(groups.drop_last()) + items_issue_keys(groups.last().1@)
    }
}

pub open spec fn groups_label_keys(groups: Seq<(String, Vec<Item>)>) -> Seq<LabelKey>
    decreases groups.len(),
{
    if groups.len() == 0 {
        Seq::empty()
    } else {
        groups_label_keys(groups.drop_last()) + items_label_keys(groups.last().1@)
    }
}

impl FetchList {
    pub fn new() -> (r: FetchList)
        ensures
            r.labels@.len() == 0,
            r.issues@.len() == 0,
    {
        FetchList { labels: Vec::new(), issues: Vec::new() }
    }

    fn push_ref(&mut self, rfc: &Option<String>) -> (r: Result<(), DataError>)
        ensures
            rfc matches Some(s) && rfc_number(s@) is None ==> r == Err::<(), DataError>(DataError::MalformedReference),
            !(rfc matches Some(s) && rfc_number(s@) is None) ==> r is Ok,
            r is Ok ==> final(self).issue_keys() == old(self).issue_keys() + ref_keys(*rfc),
            final(self).labels == old(self).labels,
    {
        if let Some(s) = rfc {
            match parse_rfc_for_id(s.as_str()) {
                Some(id) => {
                    self.issues.push((Repo::rfcs(), id));
                    assert(final(self).issue_keys() =~= old(self).issue_keys() + ref_keys(*rfc));
                },
                None => return Err(DataError::MalformedReference),
            }
        } else {
            assert(self.issue_keys() =~= old(self).issue_keys() + ref_keys(*rfc));
        }
        Ok(())
    }

    /// Appends the lookups of a feature and of its dependencies, depth first.
    fn fill_from_item(&mut self, item: &Item) -> (r: Result<(), DataError>)
        ensures
            node_refs_valid(*item) <==> r is Ok,
            r is Err ==> r == Err::<(), DataError>(DataError::MalformedReference),
            r is Ok ==> final(self).issue_keys() == old(self).issue_keys() + node_issue_keys(*item),
            r is Ok ==> final(self).label_keys() == old(self).label_keys() + node_label_keys(*item),
        decreases item,
    {
        let ghost issues0 = self.issue_keys();
        let ghost labels0 = self.label_keys();
        self.push_ref(&item.rfc)?;
        let ghost after_rfc = self.issue_keys();
        if let Some(tracking) = &item.tracking {
            self.issues.push((Repo::rustc(), *tracking));
        }
        let ghost tracking_keys = match item.tracking {
            Some(t) => seq![(rustc_repo_view(), t)],
            None => Seq::<IssueKey>::empty(),
        };
        assert(self.issue_keys() =~= after_rfc + tracking_keys);
        let ghost after_tracking = self.issue_keys();
        if let Some(label) = &item.issue_label {
            self.labels.push((Repo::rustc(), label.clone()));
        }
        assert(self.label_keys() =~= labels0 + own_label_keys(*item));
        if let Some(stabilized) = &item.stabilized {
            self.issues.push((Repo::rustc(), stabilized.pr));
        }
        let ghost pr_keys = match &item.stabilized {
            Some(st) => seq![(rustc_repo_view(), st.pr)],
            None => Seq::<IssueKey>::empty(),
        };
        assert(self.issue_keys() =~= after_tracking + pr_keys);
        let ghost after_pr = self.issue_keys();
        self.push_ref(&item.unresolved)?;
        assert(self.issue_keys() =~= after_pr + ref_keys(item.unresolved));
        assert(self.issue_keys() =~= issues0 + own_issue_keys(*item));
        let ghost own_issues = self.issue_keys();
        let ghost own_labels = self.label_keys();
        let mut i: usize = 0;
        while i < item.deps.len()
            invariant
                i <= item.deps@.len(),
                own_refs_valid(*item),
                self.issue_keys() == own_issues + items_issue_keys(item.deps@.subrange(0, i as int)),
                self.label_keys() == own_labels + items_label_keys(item.deps@.subrange(0, i as int)),
                forall|j: int| 0 <= j < i ==> node_refs_valid(#[trigger] item.deps@[j]),
            decreases item.deps@.len() - i,
        {
            let r = self.fill_from_item(&item.deps[i]);
            if r.is_err() {
                return r;
            }
            proof {
                let pre = item.deps@.subrange(0, i + 1);
                assert(pre.subrange(0, i as int) =~= item.deps@.subrange(0, i as int));
            }
            i = i + 1;
        }
        assert(item.deps@.subrange(0, i as int) =~= item.deps@);
        Ok(())
    }
}

impl InputData {
    /// Every lookup that the tree needs: its labels and its issues, group by
    /// group, each feature before its dependencies.
    pub fn get_fetch_list(&self) -> (r: Result<FetchList, DataError>)
        ensures
            groups_refs_valid(self.0@) <==> r is Ok,
            r is Err ==> r == Err::<FetchList, DataError>(DataError::MalformedReference),
            r matches Ok(fl) ==> fl.issue_keys() == groups_issue_keys(self.0@)
                && fl.label_keys() == groups_label_keys(self.0@),
    {
        let mut fetch_list = FetchList::new();
        let mut g: usize = 0;
        while g < self.0.len()
            invariant
                g <= self.0@.len(),
                fetch_list.issue_keys() == groups_issue_keys(self.0@.subrange(0, g as int)),
                fetch_list.label_keys() == groups_label_keys(self.0@.subrange(0, g as int)),
                forall|h: int| 0 <= h < g ==> items_refs_valid(#[trigger] self.0@[h].1@),
            decreases self.0@.len() - g,
        {
            let items = &self.0[g].1;
            let ghost before_issues = fetch_list.issue_keys();
            let ghost before_labels = fetch_list.label_keys();
            let mut i: usize = 0;
            while i < items.len()
                invariant
                    i <= items@.len(),
                    fetch_list.issue_keys() == before_issues + items_issue_keys(items@.subrange(0, i as int)),
                    fetch_list.label_keys() == before_labels + items_label_keys(items@.subrange(0, i as int)),
                    forall|j: int| 0 <= j < i ==> node_refs_valid(#[trigger] items@[j]),
                    g < self.0@.len(),
                    *items == self.0@[g as int].1,
                decreases items@.len() - i,
            {
                let r = fetch_list.fill_from_item(&items[i]);
                if r.is_err() {
                    assert(!items_refs_valid(items@));
                    assert(!items_refs_valid(self.0@[g as int].1@));
                    return Err(DataError::MalformedReference);
                }
                proof {
                    let pre = items@.subrange(0, i + 1);
                    assert(pre.subrange(0, i as int) =~= items@.subrange(0, i as int));
                }
                i = i + 1;
            }
            proof {
                assert(items@.subrange(0, i as int) =~= items@);
                let pre = self.0@.subrange(0, g + 1);
                assert(pre.drop_last() =~= self.0@.subrange(0, g as int));
            }
            g = g + 1;
        }
        assert(self.0@.subrange(0, g as int) =~= self.0@);
        Ok(fetch_list)
    }
}

/// The features of the tree under `item`, itself first, depth first.
pub open spec fn node_nodes(item: Item) -> Seq<Item>
    decreases item, 1nat,
{
    seq![item] + items_nodes(item.deps@)
}

pub open spec fn items_nodes(items: Seq<Item>) -> Seq<Item>
    decreases items, 0nat,
{
    if items.len() == 0 {
        Seq::empty()
    } else {
        items_nodes(items.subrange(0, items.len() - 1)) + node_nodes(items[items.len() - 1])
    }
}

/// Every feature of the feature tree, nested ones included.
pub open spec fn groups_nodes(groups: Seq<(String, Vec<Item>)>) -> Seq<Item>
    decreases groups.len(),
{
    if groups.len() == 0 {
        Seq::empty()
    } else {
        groups_nodes(groups.drop_last()) + items_nodes(groups.last().1@)
    }
}

/// The keys that `f` gives each feature of `nodes`, one feature after the other.
pub open spec fn concat_keys<B>(nodes: Seq<Item>, f: spec_fn(Item) -> Seq<B>) -> Seq<B>
    decreases nodes.len(),
{
    if nodes.len() == 0 {
        Seq::empty()
    } else {
        concat_keys(nodes.drop_last(), f) + f(nodes.last())
    }
}

proof fn lemma_concat_keys_add<B>(a: Seq<Item>, b: Seq<Item>, f: spec_fn(Item) -> Seq<B>)
    ensures
        concat_keys(a + b, f) == concat_keys(a, f) + concat_keys(b, f),
    decreases b.len(),
{
    if b.len() == 0 {
        assert(a + b =~= a);
        assert(concat_keys(a, f) + concat_keys(b, f) =~= concat_keys(a, f));
    } else {
        assert((a + b).drop_last() =~= a + b.drop_last());
        assert((a + b).last() == b.last());
        lemma_concat_keys_add(a, b.drop_last(), f);
        assert(concat_keys(a + b, f) =~= concat_keys(a, f) + concat_keys(b, f));
    }
}

proof fn lemma_concat_keys_contains<B>(nodes: Seq<Item>, f: spec_fn(Item) -> Seq<B>, k: B)
    ensures
        concat_keys(nodes, f).contains(k) <==> exists|i: int| 0 <= i < nodes.len() && (#[trigger] f(nodes[i])).contains(k),
    decreases nodes.len(),
{
    if nodes.len() > 0 {
        let pre = nodes.drop_last();
        let last = nodes.last();
        lemma_concat_keys_contains(pre, f, k);
        let a = concat_keys(pre, f);
        let b = f(last);
        if concat_keys(nodes, f).contains(k) {
            let j = choose|j: int| 0 <= j < (a + b).len() && (a + b)[j] == k;
            if j < a.len() {
                assert(a[j] == k);
                let i = choose|i: int| 0 <= i < pre.len() && (#[trigger] f(pre[i])).contains(k);
                assert(nodes[i] == pre[i]);
            } else {
                assert(b[j - a.len()] == k);
                assert(f(nodes[nodes.len() - 1]).contains(k));
            }
        }
        if exists|i: int| 0 <= i < nodes.len() && (#[trigger] f(nodes[i])).contains(k) {
            let i = choose|i: int| 0 <= i < nodes.len() && (#[trigger] f(nodes[i])).contains(k);
            if i < pre.len() {
                assert(f(pre[i]).contains(k));
                let j = choose|j: int| 0 <= j < a.len() && a[j] == k;
                assert((a + b)[j] == k);
            } else {
                let j = choose|j: int| 0 <= j < b.len() && b[j] == k;
                assert((a + b)[a.len() + j] == k);
            }
        }
    }
}

proof fn lemma_node_keys(item: Item)
    ensures
        node_issue_keys(item) == concat_keys(node_nodes(item), |x: Item| own_issue_keys(x)),
        node_label_keys(item) == concat_keys(node_nodes(item), |x: Item| own_label_keys(x)),
    decreases item, 1nat,
{
    let fi = |x: Item| own_issue_keys(x);
    let fl = |x: Item| own_label_keys(x);
    lemma_items_keys(item.deps@);
    let one = seq![item];
    lemma_concat_keys_add(one, items_nodes(item.deps@), fi);
    lemma_concat_keys_add(one, items_nodes(item.deps@), fl);
    assert(one.drop_last() =~= Seq::<Item>::empty());
    assert(one.last() == item);
    assert(concat_keys(one.drop_last(), fi).len() == 0);
    assert(concat_keys(one.drop_last(), fl).len() == 0);
    assert(concat_keys(one, fi) == concat_keys(one.drop_last(), fi) + fi(item));
    assert(concat_keys(one, fl) == concat_keys(one.drop_last(), fl) + fl(item));
    assert(concat_keys(one, fi) =~= own_issue_keys(item));
    assert(concat_keys(one, fl) =~= own_label_keys(item));
}

proof fn lemma_items_keys(items: Seq<Item>)
    ensures
        items_issue_keys(items) == concat_keys(items_nodes(items), |x: Item| own_issue_keys(x)),
        items_label_keys(items) == concat_keys(items_nodes(items), |x: Item| own_label_keys(x)),
    decreases items, 0nat,
{
    if items.len() > 0 {
        let fi = |x: Item| own_issue_keys(x);
        let fl = |x: Item| own_label_keys(x);
        let pre = items.subrange(0, items.len() - 1);
        let last = items[items.len() - 1];
        lemma_items_keys(pre);
        lemma_node_keys(last);
        lemma_concat_keys_add(items_nodes(pre), node_nodes(last), fi);
        lemma_concat_keys_add(items_nodes(pre), node_nodes(last), fl);
    }
}

proof fn lemma_groups_keys(groups: Seq<(String, Vec<Item>)>)
    ensures
        groups_issue_keys(groups) == concat_keys(groups_nodes(groups), |x: Item| own_issue_keys(x)),
        groups_label_keys(groups) == concat_keys(groups_nodes(groups), |x: Item| own_label_keys(x)),
    decreases groups.len(),
{
    if groups.len() > 0 {
        let fi = |x: Item| own_issue_keys(x);
        let fl = |x: Item| own_label_keys(x);
        lemma_groups_keys(groups.drop_last());
        lemma_items_keys(groups.last().1@);
        lemma_concat_keys_add(groups_nodes(groups.drop_last()), items_nodes(groups.last().1@), fi);
        lemma_concat_keys_add(groups_nodes(groups.drop_last()), items_nodes(groups.last().1@), fl);
    }
}

/// The fetch list of a feature tree has an entry for each RFC reference,
/// tracking issue, label, stabilization PR and unresolved RFC of every feature
/// in the tree, nested ones included, and no entry that no feature names.
pub proof fn lemma_fetch_list_covers_tree(groups: Seq<(String, Vec<Item>)>)
    ensures
        forall|x: Item, k: IssueKey| #[trigger] groups_nodes(groups).contains(x) && #[trigger] own_issue_keys(x).contains(k)
            ==> groups_issue_keys(groups).contains(k),
        forall|x: Item, k: LabelKey| #[trigger] groups_nodes(groups).contains(x) && #[trigger] own_label_keys(x).contains(k)
            ==> groups_label_keys(groups).contains(k),
        forall|k: IssueKey| #[trigger] groups_issue_keys(groups).contains(k) ==> exists|x: Item|
            groups_nodes(groups).contains(x) && #[trigger] own_issue_keys(x).contains(k),
        forall|k: LabelKey| #[trigger] groups_label_keys(groups).contains(k) ==> exists|x: Item|
            groups_nodes(groups).contains(x) && #[trigger] own_label_keys(x).contains(k),
{
    let nodes = groups_nodes(groups);
    let fi = |x: Item| own_issue_keys(x);
    let fl = |x: Item| own_label_keys(x);
    lemma_groups_keys(groups);
    assert forall|x: Item, k: IssueKey| #[trigger] nodes.contains(x) && #[trigger] own_issue_keys(x).contains(k)
        implies groups_issue_keys(groups).contains(k) by {
        lemma_concat_keys_contains(nodes, fi, k);
        let i = choose|i: int| 0 <= i < nodes.len() && nodes[i] == x;
        assert(fi(nodes[i]).contains(k));
    }
    assert forall|x: Item, k: LabelKey| #[trigger] nodes.contains(x) && #[trigger] own_label_keys(x).contains(k)
        implies groups_label_keys(groups).contains(k) by {
        lemma_concat_keys_contains(nodes, fl, k);
        let i = choose|i: int| 0 <= i < nodes.len() && nodes[i] == x;
        assert(fl(nodes[i]).contains(k));
    }
    assert forall|k: IssueKey| #[trigger] groups_issue_keys(groups).contains(k) implies exists|x: Item|
        nodes.contains(x) && #[trigger] own_issue_keys(x).contains(k) by {
        lemma_concat_keys_contains(nodes, fi, k);
        let i = choose|i: int| 0 <= i < nodes.len() && (#[trigger] fi(nodes[i])).contains(k);
        assert(nodes.contains(nodes[i]));
        assert(own_issue_keys(nodes[i]).contains(k));
    }
    assert forall|k: LabelKey| #[trigger] groups_label_keys(groups).contains(k) implies exists|x: Item|
        nodes.contains(x) && #[trigger] own_label_keys(x).contains(k) by {
        lemma_concat_keys_contains(nodes, fl, k);
        let i = choose|i: int| 0 <= i < nodes.len() && (#[trigger] fl(nodes[i])).contains(k);
        assert(nodes.contains(nodes[i]));
        assert(own_label_keys(nodes[i]).contains(k));
    }
}

} // verus!
