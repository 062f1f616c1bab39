use feature_tracker::cache::IssueData;
use feature_tracker::data::{DataError, Issue, Link};
use feature_tracker::fetcher::{FetchAction, FetchEvent, FetchRequest, FetchSession};
use feature_tracker::input::{FetchList, InputData, Item, Stabilization};
use feature_tracker::output::OutputData;
use feature_tracker::repo::Repo;
use feature_tracker::rfc::{parse_rfc_for_id, Rfc};
use feature_tracker::version::{get_version_state, in_beta, in_stable, Date, RustcVersion, VersionState};

fn item(title: &str) -> Item {
    Item {
        title: title.to_string(),
        rfc: None,
        tracking: None,
        issue_label: None,
        stabilized: None,
        unresolved: None,
        link: None,
        deps: Vec::new(),
    }
}

fn issue(number: u32, title: &str, open: bool) -> Issue {
    Issue { number, title: title.to_string(), open }
}

fn rustc() -> Repo {
    Repo::new("rust-lang", "rust")
}

fn rfcs() -> Repo {
    Repo::new("rust-lang", "rfcs")
}

/// Answers each lookup from a fixed table, counting the lookups.
fn run_fetch(cache: &mut IssueData, list: &FetchList, calls: &mut Vec<FetchRequest>) -> bool {
    let mut session = FetchSession::new();
    let mut event = FetchEvent::Start;
    loop {
        match session.step(cache, list, event) {
            FetchAction::Finished(updated) => return updated,
            FetchAction::Query(request) => {
                calls.push(request.clone_request());
                event = match request {
                    FetchRequest::Label { repo, label } => {
                        let issues = vec![issue(7, "Labeled one", true), issue(8, "Labeled two", false)];
                        FetchEvent::Labeled { repo, label, issues }
                    }
                    FetchRequest::Issue { repo, id } => {
                        let found = issue(id, "Fetched", true);
                        FetchEvent::Found { repo, id, issue: found }
                    }
                };
            }
        }
    }
}

trait CloneRequest {
    fn clone_request(&self) -> FetchRequest;
}

impl CloneRequest for FetchRequest {
    fn clone_request(&self) -> FetchRequest {
        match self {
            FetchRequest::Label { repo, label } => FetchRequest::Label { repo: repo.clone(), label: label.clone() },
            FetchRequest::Issue { repo, id } => FetchRequest::Issue { repo: repo.clone(), id: *id },
        }
    }
}

fn sample_tree() -> InputData {
    let mut child = item("child");
    child.tracking = Some(11);
    child.unresolved = Some("2000".to_string());
    let mut grandchild = item("grandchild");
    grandchild.issue_label = Some("F-nested".to_string());
    child.deps.push(grandchild);
    let mut top = item("top");
    top.rfc = Some("1234-foo-bar#overview".to_string());
    top.tracking = Some(10);
    top.issue_label = Some("F-top".to_string());
    top.stabilized = Some(Stabilization { version: "1.40".to_string(), pr: 12 });
    top.deps.push(child);
    InputData(vec![("Language".to_string(), vec![top]), ("Empty".to_string(), vec![item("bare")])])
}

#[test]
fn fetch_list_covers_every_field_of_the_tree() {
    let list = sample_tree().get_fetch_list().unwrap();
    let issues: Vec<(Repo, u32)> = vec![(rfcs(), 1234), (rustc(), 10), (rustc(), 12), (rustc(), 11), (rfcs(), 2000)];
    assert_eq!(list.issues, issues);
    let labels: Vec<(Repo, String)> = vec![(rustc(), "F-top".to_string()), (rustc(), "F-nested".to_string())];
    assert_eq!(list.labels, labels);
}

#[test]
fn fetch_list_of_bare_features_is_empty() {
    let list = InputData(vec![("g".to_string(), vec![item("a"), item("b")])]).get_fetch_list().unwrap();
    assert!(list.issues.is_empty());
    assert!(list.labels.is_empty());
}

#[test]
fn fetch_list_rejects_malformed_reference() {
    let mut child = item("child");
    child.rfc = Some("abc-def".to_string());
    let mut top = item("top");
    top.deps.push(child);
    let r = InputData(vec![("g".to_string(), vec![top])]).get_fetch_list();
    assert_eq!(r, Err(DataError::MalformedReference));
}

#[test]
fn reference_numbers() {
    assert_eq!(parse_rfc_for_id("1234"), Some(1234));
    assert_eq!(parse_rfc_for_id("0042-slug"), Some(42));
    assert_eq!(parse_rfc_for_id("+7"), Some(7));
    assert_eq!(parse_rfc_for_id("4294967295"), Some(u32::MAX));
    assert_eq!(parse_rfc_for_id("4294967296"), None);
    assert_eq!(parse_rfc_for_id(""), None);
    assert_eq!(parse_rfc_for_id("-slug"), None);
    assert_eq!(parse_rfc_for_id("12a-slug"), None);
}

#[test]
fn bare_rfc_reference_is_a_pull_request() {
    let r = Rfc::parse("1234").unwrap();
    assert_eq!(r.id, 1234);
    assert_eq!(r.url, "https://github.com/rust-lang/rfcs/pull/1234");
    assert!(!r.merged);
}

#[test]
fn page_rfc_reference_keeps_fragment() {
    let r = Rfc::parse("1234-foo-bar#overview").unwrap();
    assert_eq!(r.id, 1234);
    assert_eq!(r.url, "https://rust-lang.github.io/rfcs/1234-foo-bar.html#overview");
    assert!(r.merged);
    let plain = Rfc::parse("2000-const-generics").unwrap();
    assert_eq!(plain.url, "https://rust-lang.github.io/rfcs/2000-const-generics.html");
}

#[test]
fn malformed_rfc_reference() {
    assert_eq!(Rfc::parse("foo-bar"), Err(DataError::MalformedReference));
    assert_eq!(Rfc::parse("99999999999"), Err(DataError::MalformedReference));
}

fn filled_cache() -> IssueData {
    let mut c = IssueData::new();
    assert!(c.insert_issue(rustc(), 100, issue(100, "Add X", true)));
    assert!(c.insert_label(rustc(), "F-x".to_string(), vec![issue(100, "Other title", false), issue(101, "Y", false)]));
    assert!(c.insert_issue(rfcs(), 100, issue(100, "RFC X", false)));
    c
}

#[test]
fn cache_never_overwrites() {
    let mut c = filled_cache();
    assert_eq!(c.get_issue(&rustc(), 100), Some(issue(100, "Add X", true)));
    assert!(!c.insert_issue(rustc(), 100, issue(100, "Changed", false)));
    assert_eq!(c.get_issue(&rustc(), 100), Some(issue(100, "Add X", true)));
    assert!(!c.insert_label(rustc(), "F-x".to_string(), Vec::new()));
    assert_eq!(c.get_label(&rustc(), "F-x"), Some(&vec![100, 101]));
    assert_eq!(c.get_issue(&rustc(), 101), Some(issue(101, "Y", false)));
    assert!(c.contains_issue(&rfcs(), 100));
    assert!(!c.contains_issue(&rfcs(), 101));
    assert!(!c.contains_label(&rfcs(), "F-x"));
}

#[test]
fn saved_cache_loads_back_unchanged() {
    let c = filled_cache();
    let labels = c.label_entries().clone();
    let issues = c.issue_entries().clone();
    let loaded = IssueData::from_entries(labels, issues).unwrap();
    assert_eq!(loaded, c);
    assert_eq!(loaded.get_issue(&rfcs(), 100), Some(issue(100, "RFC X", false)));
}

#[test]
fn saved_entries_with_repeated_key_are_refused() {
    let c = filled_cache();
    let mut issues = c.issue_entries().clone();
    issues.push(((rustc(), 100), issue(100, "Again", true)));
    assert!(IssueData::from_entries(c.label_entries().clone(), issues).is_none());
}

#[test]
fn saved_label_without_its_issue_is_refused() {
    let labels = vec![((rustc(), "F-y".to_string()), vec![5])];
    assert!(IssueData::from_entries(labels, Vec::new()).is_none());
    assert!(IssueData::from_entries(Vec::new(), Vec::new()).is_some());
}

#[test]
fn second_fetch_changes_nothing() {
    let list = sample_tree().get_fetch_list().unwrap();
    let mut cache = IssueData::new();
    let mut calls = Vec::new();
    assert!(run_fetch(&mut cache, &list, &mut calls));
    assert_eq!(calls.len(), 7);
    let after_first = IssueData::from_entries(cache.label_entries().clone(), cache.issue_entries().clone()).unwrap();
    let mut second_calls = Vec::new();
    assert!(!run_fetch(&mut cache, &list, &mut second_calls));
    assert!(second_calls.is_empty());
    assert_eq!(cache, after_first);
}

#[test]
fn repeated_lookups_are_fetched_once() {
    let mut a = item("a");
    a.tracking = Some(5);
    let mut b = item("b");
    b.tracking = Some(5);
    b.issue_label = Some("L".to_string());
    let mut c = item("c");
    c.issue_label = Some("L".to_string());
    c.tracking = Some(7);
    let list = InputData(vec![("g".to_string(), vec![a, b, c])]).get_fetch_list().unwrap();
    let mut cache = IssueData::new();
    let mut calls = Vec::new();
    assert!(run_fetch(&mut cache, &list, &mut calls));
    // the label first, then issue 5; issue 7 came with the label
    assert_eq!(calls.len(), 2);
    assert_eq!(calls[0], FetchRequest::Label { repo: rustc(), label: "L".to_string() });
    assert_eq!(calls[1], FetchRequest::Issue { repo: rustc(), id: 5 });
}

#[test]
fn release_classifier_boundary() {
    let stable = RustcVersion { major: 1, minor: 39 };
    assert_eq!(get_version_state(stable, "1.39"), Ok(VersionState::Stable));
    assert_eq!(get_version_state(stable, "1.40"), Ok(VersionState::Beta));
    assert_eq!(get_version_state(stable, "1.41"), Ok(VersionState::Nightly));
    assert_eq!(get_version_state(stable, "1.0"), Ok(VersionState::Stable));
    assert_eq!(get_version_state(stable, "2.0"), Ok(VersionState::Nightly));
}

#[test]
fn classifier_rejects_malformed_version() {
    let stable = RustcVersion { major: 1, minor: 39 };
    assert_eq!(get_version_state(stable, "1.x"), Err(DataError::MalformedVersion));
    assert_eq!(get_version_state(stable, "1.40.1"), Err(DataError::MalformedVersion));
    assert_eq!(get_version_state(stable, ""), Err(DataError::MalformedVersion));
}

#[test]
fn classify_places_versions() {
    let stable = RustcVersion { major: 1, minor: 39 };
    assert_eq!(VersionState::classify(stable, RustcVersion { major: 1, minor: 40 }), VersionState::Beta);
    assert_eq!(VersionState::classify(stable, RustcVersion { major: 0, minor: 99 }), VersionState::Stable);
}

#[test]
fn tags_name_releases() {
    assert_eq!(RustcVersion::from_tag("1.39.0"), Ok(RustcVersion { major: 1, minor: 39 }));
    assert_eq!(RustcVersion::from_tag("1.40.0-beta.1"), Err(DataError::MalformedVersion));
    assert_eq!(RustcVersion::from_tag("1.40"), Err(DataError::MalformedVersion));
    assert_eq!(RustcVersion::from_tag("5000000000.1.0"), Err(DataError::MalformedVersion));
}

#[test]
fn stable_at_follows_six_week_train() {
    let epoch = Date::from_ymd(2015, 12, 11).unwrap();
    assert_eq!(epoch.day_number, 735943);
    assert_eq!(RustcVersion::stable_at(epoch), RustcVersion { major: 1, minor: 5 });
    let later = Date::from_ymd(2016, 1, 22).unwrap();
    assert_eq!(later.day_number, epoch.day_number + 42);
    assert_eq!(RustcVersion::stable_at(later), RustcVersion { major: 1, minor: 6 });
    let day_before = Date { day_number: later.day_number - 1 };
    assert_eq!(RustcVersion::stable_at(day_before), RustcVersion { major: 1, minor: 5 });
    let before_epoch = Date { day_number: epoch.day_number - 1 };
    assert_eq!(RustcVersion::stable_at(before_epoch), RustcVersion { major: 1, minor: 4 });
}

#[test]
fn dates_that_do_not_exist() {
    assert!(Date::from_ymd(2015, 2, 29).is_none());
    assert!(Date::from_ymd(2016, 2, 29).is_some());
    assert!(Date::from_ymd(2015, 13, 1).is_none());
}

#[test]
fn rustc_versions_parse() {
    assert_eq!(RustcVersion::parse("1.39"), Ok(RustcVersion { major: 1, minor: 39 }));
    assert_eq!(RustcVersion::parse("1.39.0"), Err(DataError::MalformedVersion));
    assert_eq!(RustcVersion::parse("1."), Err(DataError::MalformedVersion));
    assert_eq!(RustcVersion::parse("+1.2"), Err(DataError::MalformedVersion));
    assert_eq!(RustcVersion::parse("1"), Err(DataError::MalformedVersion));
}

#[test]
fn stable_and_beta_testers() {
    let stable = RustcVersion { major: 1, minor: 39 };
    assert_eq!(in_stable("1.39", stable), Ok(true));
    assert_eq!(in_stable("1.40", stable), Ok(false));
    assert_eq!(in_beta("1.40", stable), Ok(true));
    assert_eq!(in_beta("1.39", stable), Ok(false));
    assert_eq!(in_beta("x", stable), Err(DataError::MalformedVersion));
}

#[test]
fn end_to_end_tracking_issue() {
    let mut node = item("X");
    node.tracking = Some(100);
    let input = InputData(vec![("Group".to_string(), vec![node])]);
    let list = input.get_fetch_list().unwrap();
    let mut cache = IssueData::new();
    cache.insert_issue(rustc(), 100, issue(100, "Add X", true));
    let mut calls = Vec::new();
    assert!(!run_fetch(&mut cache, &list, &mut calls));
    assert!(calls.is_empty());
    let out = OutputData::from_input(input, &cache, RustcVersion { major: 1, minor: 39 }).unwrap();
    assert_eq!(out.0.len(), 1);
    assert_eq!(out.0[0].0, "Group");
    assert_eq!(out.0[0].1[0].tracking, Some(issue(100, "Add X", true)));
    assert_eq!(out.0[0].1[0].title, "X");
}

#[test]
fn merge_resolves_every_field() {
    let mut cache = IssueData::new();
    cache.insert_issue(rfcs(), 1234, issue(1234, "RFC foo", false));
    cache.insert_issue(rustc(), 10, issue(10, "Tracking foo", true));
    cache.insert_issue(rustc(), 12, issue(12, "Stabilize foo", false));
    cache.insert_issue(rustc(), 11, issue(11, "Tracking child", true));
    cache.insert_issue(rfcs(), 2000, issue(2000, "Pending RFC", true));
    cache.insert_label(rustc(), "F-top".to_string(), vec![issue(20, "Bug", true)]);
    cache.insert_label(rustc(), "F-nested".to_string(), Vec::new());
    let mut tree = sample_tree();
    tree.0[0].1[0].link = Some(Link { text: "docs".to_string(), url: "https://example.org".to_string() });
    let out = OutputData::from_input(tree, &cache, RustcVersion { major: 1, minor: 39 }).unwrap();
    let top = &out.0[0].1[0];
    let rfc = top.rfc.as_ref().unwrap();
    assert_eq!(rfc.issue, issue(1234, "RFC foo", false));
    assert_eq!(rfc.url, "https://rust-lang.github.io/rfcs/1234-foo-bar.html#overview");
    assert!(rfc.merged);
    assert_eq!(top.issues, vec![issue(20, "Bug", true)]);
    assert_eq!(top.issue_label, Some("F-top".to_string()));
    let st = top.stabilized.as_ref().unwrap();
    assert_eq!(st.state, VersionState::Beta);
    assert_eq!(st.version, "1.40");
    assert_eq!(st.pr, issue(12, "Stabilize foo", false));
    assert_eq!(top.link, Some(Link { text: "docs".to_string(), url: "https://example.org".to_string() }));
    let child = &top.deps[0];
    assert_eq!(child.tracking, Some(issue(11, "Tracking child", true)));
    let pending = child.unresolved.as_ref().unwrap();
    assert_eq!(pending.url, "https://github.com/rust-lang/rfcs/pull/2000");
    assert!(!pending.merged);
    assert!(child.deps[0].issues.is_empty());
    assert_eq!(out.0[1].0, "Empty");
}

#[test]
fn merge_reports_missing_entry() {
    let mut node = item("X");
    node.tracking = Some(100);
    let input = InputData(vec![("Group".to_string(), vec![node])]);
    let r = OutputData::from_input(input, &IssueData::new(), RustcVersion { major: 1, minor: 39 });
    assert_eq!(r, Err(DataError::MissingCacheEntry));
}

#[test]
fn merge_reports_malformed_version() {
    let mut cache = IssueData::new();
    cache.insert_issue(rustc(), 3, issue(3, "PR", false));
    let mut node = item("X");
    node.stabilized = Some(Stabilization { version: "soon".to_string(), pr: 3 });
    let input = InputData(vec![("Group".to_string(), vec![node])]);
    let r = OutputData::from_input(input, &cache, RustcVersion { major: 1, minor: 39 });
    assert_eq!(r, Err(DataError::MalformedVersion));
}

#[test]
fn merge_reports_malformed_reference() {
    let mut node = item("X");
    node.unresolved = Some("x-y".to_string());
    let input = InputData(vec![("Group".to_string(), vec![node])]);
    let r = OutputData::from_input(input, &IssueData::new(), RustcVersion { major: 1, minor: 39 });
    assert_eq!(r, Err(DataError::MalformedReference));
}

#[test]
fn repositories() {
    let r = Repo::new("rust-lang", "rfcs");
    assert_eq!(r.owner, "rust-lang");
    assert_eq!(r.name, "rfcs");
    assert!(r.same_as(&Repo::rfcs()));
    assert!(!r.same_as(&Repo::rustc()));
}

#[test]
fn rustc_versions_from_str() {
    let v: RustcVersion = "1.45".parse().unwrap();
    assert_eq!(v, RustcVersion { major: 1, minor: 45 });
    assert!("1.45.2".parse::<RustcVersion>().is_err());
    assert!(RustcVersion { major: 1, minor: 9 } < RustcVersion { major: 1, minor: 10 });
}
