use spm::dependency::extract_name_and_namespace;
use spm::dependency::Dependencies;
use spm::dependency::Dependency;
use spm::SpmError;

fn dep(url: &str, version: &str) -> Dependency {
    Dependency::new(url.to_string(), version.to_string(), false).unwrap()
}

#[test]
fn derivation_from_remote_url() {
    assert_eq!(
        extract_name_and_namespace("https://github.com/user/repo.git", false),
        Ok(("repo".to_string(), "user".to_string()))
    );
    assert_eq!(
        extract_name_and_namespace("https://github.com/user/repo", false),
        Ok(("repo".to_string(), "user".to_string()))
    );
    assert_eq!(
        extract_name_and_namespace("ns/name", false),
        Ok(("name".to_string(), "ns".to_string()))
    );
    assert_eq!(
        extract_name_and_namespace("ns/name.git", false),
        Ok(("name".to_string(), "ns".to_string()))
    );
}

#[test]
fn derivation_fails_below_two_segments() {
    assert_eq!(
        extract_name_and_namespace("single", false),
        Err(SpmError::InvalidInput)
    );
    assert_eq!(
        extract_name_and_namespace("", false),
        Err(SpmError::InvalidInput)
    );
}

#[test]
fn derivation_from_local_path() {
    assert_eq!(
        extract_name_and_namespace("/home/user/libs/mylib", true),
        Ok(("mylib".to_string(), "local".to_string()))
    );
    assert_eq!(
        extract_name_and_namespace("/home/user/libs/mylib/", true),
        Ok(("mylib".to_string(), "local".to_string()))
    );
}

#[test]
fn add_is_idempotent_for_identical_pairs() {
    let mut deps = Dependencies::new(Vec::new());
    deps.add(dep("https://github.com/a/x", "1.0.0"));
    assert_eq!(deps.len(), 1);
    deps.add(dep("https://github.com/a/x", "1.0.0"));
    assert_eq!(deps.len(), 1);
    let all = deps.get_all();
    assert_eq!(all[0].version, "1.0.0");
}

#[test]
fn add_replaces_slot_with_new_version() {
    let mut deps = Dependencies::new(Vec::new());
    deps.add(dep("https://github.com/a/x", "1.0.0"));
    deps.add(dep("https://github.com/a/y", "0.5.0"));
    assert_eq!(deps.len(), 2);
    deps.add(dep("https://github.com/a/x", "2.0.0"));
    assert_eq!(deps.len(), 2);
    let all = deps.get_all();
    assert_eq!(all[0].name, "x");
    assert_eq!(all[0].version, "2.0.0");
    assert_eq!(all[1].name, "y");
    assert_eq!(all[1].version, "0.5.0");
}

#[test]
fn remove_returns_the_slot_entry() {
    let mut deps = Dependencies::new(Vec::new());
    let d1 = dep("https://github.com/test/package1", "1.0.0");
    let d2 = dep("https://github.com/test/package2", "2.0.0");
    deps.add(d1.clone());
    deps.add(d2.clone());
    let removed = deps.remove("package1", "test");
    assert_eq!(removed, Some(d1));
    assert_eq!(deps.len(), 1);
    assert_eq!(deps.remove("package1", "test"), None);
    assert!(!deps.is_empty());
}

#[test]
fn find_by_name_and_namespace_reports_slots() {
    let mut deps = Dependencies::new(Vec::new());
    deps.add(dep("https://github.com/a/x", "1.0.0"));
    assert_eq!(deps.find_by_name_and_namespace("x", "a"), Some(0));
    assert_eq!(deps.find_by_name_and_namespace("x", "b"), None);
    assert_eq!(deps.find_by_name_and_namespace("y", "a"), None);
}

#[test]
fn dependency_full_name_joins_namespace_and_name() {
    let d = dep("https://github.com/alice/logger", "1.0.0");
    assert_eq!(d.get_full_name(), "alice/logger");
}
