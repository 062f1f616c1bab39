//! The merged tree: the feature tree with every reference replaced by what
//! the cache holds for it, and each stabilization placed on the release train.

use vstd::prelude::*;
use crate::cache::IssueData;
use crate::data::{DataError, Issue, IssueId, Link};
use crate::input::{InputData, Item as InputItem};
use crate::repo::{rfc_repo_view, rustc_repo_view, Repo};
use crate::rfc;
use crate::rfc::{rfc_merged, rfc_number, rfc_url};
use crate::version::{get_version_state, version_state, RustcVersion, VersionState};

verus! {

/// An RFC reference with the record of its pull request.
#[derive(Debug, PartialEq, Eq)]
pub struct Rfc {
    pub issue: Issue,
    pub url: String,
    pub merged: bool,
}

/// A stabilization with its PR and its place on the release train.
#[derive(Debug, PartialEq, Eq)]
pub struct Stabilization {
    pub state: VersionState,
    pub version: String,
    pub pr: Issue,
}

/// A feature with its references resolved.
#[derive(Debug, PartialEq, Eq)]
pub struct Item {
    pub title: String,
    pub rfc: Option<Rfc>,
    pub tracking: Option<Issue>,
    pub issue_label: Option<String>,
    pub issues: Vec<Issue>,
    pub stabilized: Option<Stabilization>,
    pub unresolved: Option<Rfc>,
    pub link: Option<Link>,
    pub deps: Vec<Item>,
}

/// The merged tree: the groups of the feature tree, in the same order.
#[derive(Debug, PartialEq, Eq)]
pub struct OutputData(pub Vec<(String, Vec<Item>)>);

/// Why an RFC reference cannot be resolved, if it cannot.
pub open spec fn rfc_error(r: Option<String>, c: IssueData) -> Option<DataError> {
    match r {
        None => None,
        Some(s) => match rfc_number(s@) {
            None => Some(DataError::MalformedReference),
            Some(n) => if c.issue_map().contains_key((rfc_repo_view(), n)) {
                None
            } else {
                Some(DataError::MissingCacheEntry)
            },
        },
    }
}

/// The first reason why the feature's own fields cannot be resolved, taking
/// them in the order rfc, tracking issue, label, stabilization, unresolved RFC.
pub open spec fn own_error(item: InputItem, c: IssueData, stable: RustcVersion) -> Option<DataError> {
    if rfc_error(item.rfc, c) is Some {
        rfc_error(item.rfc, c)
    } else if item.tracking matches Some(t) && !c.issue_map().contains_key((rustc_repo_view(), t)) {
        Some(DataError::MissingCacheEntry)
    } else if item.issue_label matches Some(l) && !c.label_map().contains_key((rustc_repo_view(), l@)) {
        Some(DataError::MissingCacheEntry)
    } else if item.stabilized matches Some(st) && version_state(stable, st.version@) is Err {
        Some(DataError::MalformedVersion)
    } else if item.stabilized matches Some(st) && !c.issue_map().contains_key((rustc_repo_view(), st.pr)) {
        Some(DataError::MissingCacheEntry)
    } else {
        rfc_error(item.unresolved, c)
    }
}

/// The first reason why a feature or one of its dependencies cannot be resolved, depth first.
pub open spec fn node_error(item: InputItem, c: IssueData, stable: RustcVersion) -> Option<DataError>
    decreases item, 1nat,
{
    match own_error(item, c, stable) {
        Some(e) => Some(e),
        None => items_error(item.deps@, c, stable),
    }
}

pub open spec fn items_error(s: Seq<InputItem>, c: IssueData, stable: RustcVersion) -> Option<DataError>
    decreases s, 0nat,
{
    if s.len() == 0 {
        None
    } else {
        match node_error(s[0], c, stable) {
            Some(e) => Some(e),
            None => items_error(s.subrange(1, s.len() as int), c, stable),
        }
    }
}

pub open spec fn groups_error(g: Seq<(String, Vec<InputItem>)>, c: IssueData, stable: RustcVersion) -> Option<DataError>
    decreases g.len(),
{
    if g.len() == 0 {
        None
    } else {
        match items_error(g[0].1@, c, stable) {
            Some(e) => Some(e),
            None => groups_error(g.drop_first(), c, stable),
        }
    }
}

/// `out` is what the cache holds for the RFC reference `r`.
pub open spec fn rfc_resolved(out: Option<Rfc>, r: Option<String>, c: IssueData) -> bool {
    match r {
        None => out is None,
        Some(s) => out matches Some(o) && o.issue == c.issue_map()[(rfc_repo_view(), rfc_number(s@)->0)]
            && o.url@ == rfc_url(s@) && o.merged == rfc_merged(s@),
    }
}

/// The issues that carry a label, as the cache lists them.
pub open spec fn label_issues(c: IssueData, label: Seq<char>) -> Seq<Issue> {
    c.label_map()[(rustc_repo_view(), label)].map_values(|id: IssueId| c.issue_map()[(rustc_repo_view(), id)])
}

/// The fields of `out` resolve those of `inp`, dependencies aside.
pub open spec fn own_resolved(inp: InputItem, out: Item, c: IssueData, stable: RustcVersion) -> bool {
    &&& out.title == inp.title
    &&& rfc_resolved(out.rfc, inp.rfc, c)
    &&& out.tracking == match inp.tracking {
        Some(t) => Some(c.issue_map()[(rustc_repo_view(), t)]),
        None => None::<Issue>,
    }
    &&& out.issue_label == inp.issue_label
    &&& out.issues@ == match inp.issue_label {
        Some(l) => label_issues(c, l@),
        None => Seq::<Issue>::empty(),
    }
    &&& match inp.stabilized {
        None => out.stabilized is None,
        Some(st) => out.stabilized matches Some(o) && o.version == st.version && o.pr == c.issue_map()[(
        rustc_repo_view(), st.pr)] && version_state(stable, st.version@) == Ok::<VersionState, DataError>(o.state),
    }
    &&& rfc_resolved(out.unresolved, inp.unresolved, c)
    &&& out.link == inp.link
}

/// `out` resolves `inp` and, dependency by dependency, everything below it.
pub open spec fn node_resolved(inp: InputItem, out: Item, c: IssueData, stable: RustcVersion) -> bool
    decreases inp,
{
    &&& own_resolved(inp, out, c, stable)
    &&& out.deps@.len() == inp.deps@.len()
    &&& forall|i: int| 0 <= i < inp.deps@.len() ==> node_resolved(#[trigger] inp.deps@[i], out.deps@[i], c, stable)
}

pub open spec fn items_resolved(inp: Seq<InputItem>, out: Seq<Item>, c: IssueData, stable: RustcVersion) -> bool {
    &&& out.len() == inp.len()
    &&& forall|i: int| 0 <= i < inp.len() ==> node_resolved(#[trigger] inp[i], out[i], c, stable)
}

fn clone_text(s: &Option<String>) -> (r: Option<String>)
    ensures
        r == *s,
{
    match s {
        Some(t) => Some(t.clone()),
        None => None,
    }
}

fn convert_rfc(c: &IssueData, r: &Option<String>) -> (res: Result<Option<Rfc>, DataError>)
    requires
        c.wf(),
    ensures
        rfc_error(*r, *c) matches Some(e) ==> res == Err::<Option<Rfc>, DataError>(e),
        rfc_error(*r, *c) is None ==> (res matches Ok(o) && rfc_resolved(o, *r, *c)),
{
    match r {
        None => Ok(None),
        Some(s) => {
            let parsed = match rfc::Rfc::parse(s.as_str()) {
                Ok(p) => p,
                Err(e) => return Err(e),
            };
            let issue = match c.get_issue(&Repo::rfcs(), parsed.id) {
                Some(i) => i,
                None => return Err(DataError::MissingCacheEntry),
            };
            Ok(Some(Rfc { issue, url: parsed.url, merged: parsed.merged }))
        },
    }
}

fn get_required_issue(c: &IssueData, repo: &Repo, id: IssueId) -> (r: Result<Issue, DataError>)
    requires
        c.wf(),
    ensures
        c.issue_map().contains_key((repo@, id)) ==> r == Ok::<Issue, DataError>(c.issue_map()[(repo@, id)]),
        !c.issue_map().contains_key((repo@, id)) ==> r == Err::<Issue, DataError>(DataError::MissingCacheEntry),
{
    match c.get_issue(repo, id) {
        Some(i) => Ok(i),
        None => Err(DataError::MissingCacheEntry),
    }
}

fn convert_label(c: &IssueData, label: &Option<String>) -> (r: Result<Vec<Issue>, DataError>)
    requires
        c.wf(),
    ensures
        label matches Some(l) && !c.label_map().contains_key((rustc_repo_view(), l@)) ==> r
            == Err::<Vec<Issue>, DataError>(DataError::MissingCacheEntry),
        !(label matches Some(l) && !c.label_map().contains_key((rustc_repo_view(), l@))) ==> (r matches Ok(v)
            && v@ == match *label {
            Some(l) => label_issues(*c, l@),
            None => Seq::<Issue>::empty(),
        }),
{
    let mut out: Vec<Issue> = Vec::new();
    match label {
        None => Ok(out),
        Some(l) => {
            let rustc = Repo::rustc();
            let ids = match c.get_label(&rustc, l.as_str()) {
                Some(ids) => ids,
                None => return Err(DataError::MissingCacheEntry),
            };
            let ghost key = (rustc_repo_view(), l@);
            proof {
                crate::cache::lemma_label_ids_cached(*c, key);
            }
            let mut i: usize = 0;
            while i < ids.len()
                invariant
                    c.wf(),
                    rustc@ == rustc_repo_view(),
                    c.label_map().contains_key(key),
                    ids@ == c.label_map()[key],
                    forall|j: int| 0 <= j < ids@.len() ==> c.issue_map().contains_key((rustc_repo_view(), #[trigger] ids@[j])),
                    i <= ids@.len(),
                    out@ == ids@.subrange(0, i as int).map_values(|id: IssueId| c.issue_map()[(rustc_repo_view(), id)]),
                decreases ids@.len() - i,
            {
                let issue = match c.get_issue(&rustc, ids[i]) {
                    Some(x) => x,
                    None => return Err(DataError::MissingCacheEntry),
                };
                out.push(issue);
                proof {
                    assert(out@ =~= ids@.subrange(0, i + 1).map_values(|id: IssueId| c.issue_map()[(rustc_repo_view(), id)]));
                }
                i = i + 1;
            }
            proof {
                assert(ids@.subrange(0, i as int) =~= ids@);
            }
            Ok(out)
        },
    }
}

fn clone_link(l: &Option<Link>) -> (r: Option<Link>)
    ensures
        r == *l,
{
    match l {
        Some(x) => Some(x.clone()),
        None => None,
    }
}

fn convert_stabilized(c: &IssueData, stable: RustcVersion, st: &Option<crate::input::Stabilization>) -> (r: Result<
    Option<Stabilization>,
    DataError,
>)
    requires
        c.wf(),
    ensures
        st matches Some(s) && version_state(stable, s.version@) is Err ==> r == Err::<Option<Stabilization>, DataError>(
            DataError::MalformedVersion,
        ),
        st matches Some(s) && version_state(stable, s.version@) is Ok && !c.issue_map().contains_key(
            (rustc_repo_view(), s.pr),
        ) ==> r == Err::<Option<Stabilization>, DataError>(DataError::MissingCacheEntry),
        st is None ==> r == Ok::<Option<Stabilization>, DataError>(None),
        st matches Some(s) ==> (version_state(stable, s.version@) is Ok && c.issue_map().contains_key(
            (rustc_repo_view(), s.pr),
        ) ==> (r matches Ok(Some(o)) && o.version == s.version && o.pr == c.issue_map()[(rustc_repo_view(), s.pr)]
            && version_state(stable, s.version@) == Ok::<VersionState, DataError>(o.state))),
{
    match st {
        None => Ok(None),
        Some(s) => {
            let state = match get_version_state(stable, s.version.as_str()) {
                Ok(v) => v,
                Err(_) => return Err(DataError::MalformedVersion),
            };
            let pr = match get_required_issue(c, &Repo::rustc(), s.pr) {
                Ok(i) => i,
                Err(e) => return Err(e),
            };
            Ok(Some(Stabilization { state, version: s.version.clone(), pr }))
        },
    }
}

fn convert_item(c: &IssueData, stable: RustcVersion, inp: &InputItem) -> (r: Result<Item, DataError>)
    requires
        c.wf(),
    ensures
        node_error(*inp, *c, stable) matches Some(e) ==> r == Err::<Item, DataError>(e),
        node_error(*inp, *c, stable) is None ==> (r matches Ok(o) && node_resolved(*inp, o, *c, stable)),
    decreases inp, 1nat,
{
    let rfc = match convert_rfc(c, &inp.rfc) {
        Ok(x) => x,
        Err(e) => return Err(e),
    };
    let tracking = match inp.tracking {
        Some(t) => match get_required_issue(c, &Repo::rustc(), t) {
            Ok(i) => Some(i),
            Err(e) => return Err(e),
        },
        None => None,
    };
    let issues = match convert_label(c, &inp.issue_label) {
        Ok(v) => v,
        Err(e) => return Err(e),
    };
    let stabilized = match convert_stabilized(c, stable, &inp.stabilized) {
        Ok(x) => x,
        Err(e) => return Err(e),
    };
    let unresolved = match convert_rfc(c, &inp.unresolved) {
        Ok(x) => x,
        Err(e) => return Err(e),
    };
    assert(own_error(*inp, *c, stable) is None);
    let deps = match convert_items(c, stable, &inp.deps) {
        Ok(v) => v,
        Err(e) => return Err(e),
    };
    Ok(Item {
        title: inp.title.clone(),
        rfc,
        tracking,
        issue_label: clone_text(&inp.issue_label),
        issues,
        stabilized,
        unresolved,
        link: clone_link(&inp.link),
        deps,
    })
}

fn convert_items(c: &IssueData, stable: RustcVersion, items: &Vec<InputItem>) -> (r: Result<Vec<Item>, DataError>)
    requires
        c.wf(),
    ensures
        items_error(items@, *c, stable) matches Some(e) ==> r == Err::<Vec<Item>, DataError>(e),
        items_error(items@, *c, stable) is None ==> (r matches Ok(v) && items_resolved(items@, v@, *c, stable)),
    decreases items, 0nat,
{
    let mut out: Vec<Item> = Vec::new();
    let n = items.len();
    let mut i: usize = 0;
    assert(items@.subrange(0, n as int) =~= items@);
    while i < n
        invariant
            c.wf(),
            n == items@.len(),
            i <= n,
            items_error(items@, *c, stable) == items_error(items@.subrange(i as int, n as int), *c, stable),
            out@.len() == i,
            forall|j: int| 0 <= j < i ==> node_resolved(#[trigger] items@[j], out@[j], *c, stable),
        decreases n - i,
    {
        let ghost rest = items@.subrange(i as int, n as int);
        assert(rest[0] == items@[i as int]);
        assert(rest.subrange(1, rest.len() as int) =~= items@.subrange(i + 1, n as int));
        match convert_item(c, stable, &items[i]) {
            Ok(o) => out.push(o),
            Err(e) => return Err(e),
        }
        i = i + 1;
    }
    assert(items@.subrange(n as int, n as int).len() == 0);
    Ok(out)
}

impl OutputData {
    /// Merges the feature tree with the cache; stabilizations are placed
    /// against `latest_stable`. Fails with the first reference, in tree order,
    /// that cannot be resolved.
    pub fn from_input(input: InputData, issue_data: &IssueData, latest_stable: RustcVersion) -> (r: Result<
        OutputData,
        DataError,
    >)
        requires
            issue_data.wf(),
        ensures
            groups_error(input.0@, *issue_data, latest_stable) matches Some(e) ==> r == Err::<OutputData, DataError>(e),
            groups_error(input.0@, *issue_data, latest_stable) is None ==> (r matches Ok(out)
                && out.0@.len() == input.0@.len()
                && forall|g: int| 0 <= g < input.0@.len() ==> (#[trigger] out.0@[g]).0 == input.0@[g].0
                    && items_resolved(input.0@[g].1@, out.0@[g].1@, *issue_data, latest_stable)),
    {
        let groups = &input.0;
        let n = groups.len();
        let mut out: Vec<(String, Vec<Item>)> = Vec::new();
        let mut g: usize = 0;
        assert(groups@.subrange(0, n as int) =~= groups@);
        while g < n
            invariant
                issue_data.wf(),
                groups@ == input.0@,
                n == groups@.len(),
                g <= n,
                groups_error(groups@, *issue_data, latest_stable) == groups_error(groups@.subrange(g as int, n as int), *issue_data, latest_stable),
                out@.len() == g,
                forall|h: int| 0 <= h < g ==> (#[trigger] out@[h]).0 == groups@[h].0
                    && items_resolved(groups@[h].1@, out@[h].1@, *issue_data, latest_stable),
            decreases n - g,
        {
            let ghost rest = groups@.subrange(g as int, n as int);
            assert(rest[0] == groups@[g as int]);
            assert(rest.drop_first() =~= groups@.subrange(g + 1, n as int));
            let (name, items) = &groups[g];
            assert(*items == groups@[g as int].1);
            match convert_items(issue_data, latest_stable, items) {
                Ok(v) => out.push((name.clone(), v)),
                Err(e) => {
                    assert(items_error(rest[0].1@, *issue_data, latest_stable) == Some(e));
                    assert(groups_error(rest, *issue_data, latest_stable) == Some(e));
                    return Err(e);
                },
            }
            g = g + 1;
        }
        assert(groups@.subrange(n as int, n as int).len() == 0);
        Ok(OutputData(out))
    }
}

} // verus!
