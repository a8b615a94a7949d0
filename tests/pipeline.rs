use component_diff::catalog::Catalog;
use component_diff::diff::diff;
use component_diff::fetch::{fetch_keys, registry_key, remote_catalog, RemoteRecord};
use component_diff::flow::{conclude, plan, registry_account, DiffError, Outcome, Plan};
use component_diff::scan::{catalog_from_files, component_name_of, SourceFile};

fn catalog(pairs: &[(&str, &str)]) -> Catalog {
    let mut c = Catalog::new();
    for (n, t) in pairs {
        c.insert(n.to_string(), t.to_string());
    }
    c
}

fn pairs_of(c: &Catalog) -> Vec<(String, String)> {
    let mut v: Vec<(String, String)> = c
        .names()
        .into_iter()
        .map(|n| {
            let t = c.get(&n).unwrap().clone();
            (n, t)
        })
        .collect();
    v.sort();
    v
}

fn owned(pairs: &[(&str, &str)]) -> Vec<(String, String)> {
    let mut v: Vec<(String, String)> = pairs.iter().map(|(a, b)| (a.to_string(), b.to_string())).collect();
    v.sort();
    v
}

fn record(account: &str, name: &str, content: &str) -> RemoteRecord {
    RemoteRecord { account: account.to_string(), name: name.to_string(), content: content.to_string() }
}

fn file(path: &str, content: &str) -> SourceFile {
    SourceFile { path: path.to_string(), content: content.to_string() }
}

#[test]
fn catalog_insert_replaces_same_name() {
    let mut c = Catalog::new();
    assert!(c.is_empty());
    c.insert("foo".to_string(), "one".to_string());
    c.insert("bar".to_string(), "two".to_string());
    c.insert("foo".to_string(), "three".to_string());
    assert_eq!(c.len(), 2);
    assert!(!c.is_empty());
    assert_eq!(c.get("foo"), Some(&"three".to_string()));
    assert_eq!(c.get("bar"), Some(&"two".to_string()));
    assert_eq!(c.get("baz"), None);
}

#[test]
fn diff_against_empty_remote_is_local() {
    let local = catalog(&[("foo", "hello")]);
    let remote = Catalog::new();
    let d = diff(&local, &remote);
    assert_eq!(pairs_of(&d), owned(&[("foo", "hello")]));
}

#[test]
fn diff_of_identical_catalogs_is_empty() {
    let local = catalog(&[("foo", "hello")]);
    let remote = catalog(&[("foo", "hello")]);
    let d = diff(&local, &remote);
    assert!(d.is_empty());
    assert_eq!(d.len(), 0);
}

#[test]
fn diff_keeps_modified_and_new() {
    let local = catalog(&[("foo", "hello"), ("bar", "x")]);
    let remote = catalog(&[("foo", "world")]);
    let d = diff(&local, &remote);
    assert_eq!(pairs_of(&d), owned(&[("foo", "hello"), ("bar", "x")]));
}

#[test]
fn diff_result_is_within_local() {
    let local = catalog(&[("a", "1"), ("b", "2"), ("c", "3")]);
    let remote = catalog(&[("a", "1"), ("b", "20"), ("z", "9")]);
    let d = diff(&local, &remote);
    for (n, t) in pairs_of(&d) {
        assert_eq!(local.get(&n), Some(&t));
    }
    assert_eq!(pairs_of(&d), owned(&[("b", "2"), ("c", "3")]));
}

#[test]
fn diff_shared_name_kept_only_when_content_differs() {
    let local = catalog(&[("x", "c1"), ("y", "same")]);
    let remote = catalog(&[("x", "c2"), ("y", "same")]);
    let d = diff(&local, &remote);
    assert_eq!(d.get("x"), Some(&"c1".to_string()));
    assert_eq!(d.get("y"), None);
}

#[test]
fn diff_compares_exactly() {
    let local = catalog(&[("x", "text\n")]);
    let remote = catalog(&[("x", "text")]);
    assert_eq!(diff(&local, &remote).len(), 1);
}

#[test]
fn scan_names_follow_paths() {
    let files = vec![file("a.txt", "alpha"), file("sub/b.txt", "beta")];
    let c = catalog_from_files(&files);
    assert_eq!(pairs_of(&c), owned(&[("a", "alpha"), ("sub.b", "beta")]));
}

#[test]
fn scan_of_no_files_is_empty() {
    let c = catalog_from_files(&Vec::new());
    assert!(c.is_empty());
}

#[test]
fn scan_later_file_replaces_same_name() {
    let files = vec![file("a.txt", "first"), file("a.md", "second")];
    let c = catalog_from_files(&files);
    assert_eq!(pairs_of(&c), owned(&[("a", "second")]));
}

#[test]
fn component_names_of_paths() {
    assert_eq!(component_name_of("a/b.jsx"), "a.b");
    assert_eq!(component_name_of("noext"), "noext");
    assert_eq!(component_name_of("x.tar.gz"), "x.tar");
    assert_eq!(component_name_of("dir.v1/file"), "dir.v1.file");
    assert_eq!(component_name_of(".hidden"), ".hidden");
    assert_eq!(component_name_of("a/.b"), "a..b");
    assert_eq!(component_name_of("a/.b.c"), "a..b");
    assert_eq!(component_name_of("foo."), "foo");
    assert_eq!(component_name_of("deep/er/name.jsx"), "deep.er.name");
    assert_eq!(component_name_of(""), "");
}

#[test]
fn registry_accounts_by_network() {
    assert_eq!(registry_account("mainnet"), Some("social.near".to_string()));
    assert_eq!(registry_account("testnet"), Some("v1.social08.testnet".to_string()));
    assert_eq!(registry_account("localnet"), None);
}

#[test]
fn registry_keys_name_owner_and_component() {
    assert_eq!(registry_key("alice.near", "nav.bar"), "alice.near/widget/nav.bar");
    let local = catalog(&[("foo", "1"), ("bar", "2")]);
    let mut keys = fetch_keys("alice.near", &local);
    keys.sort();
    assert_eq!(keys, vec!["alice.near/widget/bar".to_string(), "alice.near/widget/foo".to_string()]);
}

#[test]
fn plan_with_no_local_components_stops() {
    let local = Catalog::new();
    assert!(matches!(plan("mainnet", "alice.near", &local), Ok(Plan::NothingToCompare)));
}

#[test]
fn plan_on_unknown_network_fails() {
    let local = catalog(&[("foo", "hello")]);
    match plan("localnet", "alice.near", &local) {
        Err(DiffError::NoRegistry { network }) => assert_eq!(network, "localnet"),
        _ => panic!("expected a configuration error"),
    }
    let empty = Catalog::new();
    assert!(matches!(plan("localnet", "alice.near", &empty), Err(DiffError::NoRegistry { .. })));
}

#[test]
fn plan_asks_registry_for_every_local_component() {
    let local = catalog(&[("foo", "hello")]);
    match plan("testnet", "bob.testnet", &local) {
        Ok(Plan::Fetch { registry, keys }) => {
            assert_eq!(registry, "v1.social08.testnet");
            assert_eq!(keys, vec!["bob.testnet/widget/foo".to_string()]);
        }
        _ => panic!("expected a fetch"),
    }
}

#[test]
fn remote_catalog_keeps_owner_and_asked_names() {
    let asked = catalog(&[("foo", "l1"), ("bar", "l2")]);
    let recs = vec![
        record("alice.near", "foo", "r1"),
        record("bob.near", "bar", "r2"),
        record("alice.near", "other", "r3"),
        record("alice.near", "bar", "r4"),
    ];
    let c = remote_catalog("alice.near", &asked, &recs);
    assert_eq!(pairs_of(&c), owned(&[("foo", "r1"), ("bar", "r4")]));
}

#[test]
fn conclude_reports_fetch_failure() {
    let local = catalog(&[("foo", "hello")]);
    match conclude("alice.near", &local, Err("timeout".to_string())) {
        Err(DiffError::Fetch { reason }) => assert_eq!(reason, "timeout"),
        _ => panic!("expected a fetch error"),
    }
}

#[test]
fn conclude_all_new_when_registry_has_none() {
    let local = catalog(&[("foo", "hello")]);
    match conclude("alice.near", &local, Ok(Vec::new())) {
        Ok(Outcome::AllNew(c)) => assert_eq!(pairs_of(&c), owned(&[("foo", "hello")])),
        _ => panic!("expected all new"),
    }
}

#[test]
fn conclude_no_differences() {
    let local = catalog(&[("foo", "hello")]);
    let recs = vec![record("alice.near", "foo", "hello")];
    assert!(matches!(conclude("alice.near", &local, Ok(recs)), Ok(Outcome::NoDifferences)));
}

#[test]
fn conclude_changed_components() {
    let local = catalog(&[("foo", "hello"), ("bar", "x")]);
    let recs = vec![record("alice.near", "foo", "world")];
    match conclude("alice.near", &local, Ok(recs)) {
        Ok(Outcome::Changed(c)) => assert_eq!(pairs_of(&c), owned(&[("foo", "hello"), ("bar", "x")])),
        _ => panic!("expected changed components"),
    }
}

#[test]
fn conclude_ignores_other_accounts() {
    let local = catalog(&[("foo", "hello")]);
    let recs = vec![record("mallory.near", "foo", "hello")];
    assert!(matches!(conclude("alice.near", &local, Ok(recs)), Ok(Outcome::AllNew(_))));
}
