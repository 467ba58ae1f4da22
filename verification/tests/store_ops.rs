use spm::codec::parse_manifest;
use spm::localops::LocalPackageManager;
use spm::manifest::Package;
use spm::shell::ShellType;
use spm::store::PackageManager;
use spm::store::PackageMetadata;
use spm::SpmError;

fn manager_with(packages: Vec<(&str, Package)>) -> PackageManager {
    let mut pm = PackageManager::new("/root/.spm".to_string());
    pm.mark_store_present(true);
    for (path, package) in packages {
        let meta = PackageMetadata::from_parts(path.to_string(), package);
        pm.record_scanned_package(meta);
    }
    pm
}

#[test]
fn test_package_manager_new() {
    let pm = PackageManager::new("/root/.spm".to_string());
    assert_eq!(pm.root_directory, "/root/.spm");
    assert!(!pm.store_present);
}

#[test]
fn test_get_bin_directory() {
    let pm = PackageManager::new("/root/.spm".to_string());
    let result = pm.get_bin_directory();
    assert!(result.ends_with("bin"));
    assert_eq!(result, "/root/.spm/bin");
}

#[test]
fn install_into_empty_store_scans_to_one_entry() {
    let mut pm = manager_with(vec![]);
    let source = Package::new_with_namespace(
        "demo".to_string(),
        "user".to_string(),
        false,
        ShellType::Sh,
    );
    let plan = pm
        .install_package(&source, "demo", false, false, false)
        .expect("installing into an empty root succeeds");
    assert_eq!(plan.destination, "/root/.spm/packages/user/demo");
    assert!(!plan.is_move);
    assert_eq!(plan.setup_script_path, "/root/.spm/packages/user/demo/install.sh");
    let installed = pm.get_installed_packages().unwrap();
    assert_eq!(installed.len(), 1);
    assert_eq!(installed[0].get_full_name(), source.get_full_name());
}

#[test]
fn install_occupied_destination_requires_force() {
    let source = Package::new_with_namespace(
        "demo".to_string(),
        "user".to_string(),
        false,
        ShellType::Sh,
    );
    let mut pm = manager_with(vec![("/root/.spm/packages/user/demo", source.clone())]);
    let denied = pm.install_package(&source, "demo", true, false, false);
    assert!(matches!(denied, Err(SpmError::AlreadyInstalled)));
    assert_eq!(pm.get_installed_packages().unwrap().len(), 1);
    let forced = pm.install_package(&source, "demo", true, false, true);
    assert!(forced.is_ok());
    let installed = pm.get_installed_packages().unwrap();
    assert_eq!(installed.len(), 1);
    assert_eq!(installed[0].get_full_name(), "user/demo");
}

#[test]
fn keyword_search_ranks_matches_only() {
    let web = Package::new_with_namespace(
        "web-server".to_string(),
        "user".to_string(),
        false,
        ShellType::Sh,
    );
    let db = Package::new_with_namespace(
        "database".to_string(),
        "user".to_string(),
        false,
        ShellType::Sh,
    );
    let pm = manager_with(vec![
        ("/root/.spm/packages/user/web-server", web),
        ("/root/.spm/packages/user/database", db),
    ]);
    let results = pm.keyword_search("web").unwrap();
    assert_eq!(results.len(), 1);
    assert_eq!(results[0].get_package_name(), "web-server");
}

#[test]
fn keyword_search_exact_match_outranks_partial() {
    let exact = Package::new_with_namespace(
        "web".to_string(),
        "a".to_string(),
        false,
        ShellType::Sh,
    );
    let partial = Package::new_with_namespace(
        "web-server".to_string(),
        "b".to_string(),
        false,
        ShellType::Sh,
    );
    let pm = manager_with(vec![
        ("/root/.spm/packages/b/web-server", partial),
        ("/root/.spm/packages/a/web", exact),
    ]);
    let results = pm.keyword_search("web").unwrap();
    assert_eq!(results.len(), 2);
    assert_eq!(results[0].get_package_name(), "web");
    assert_eq!(results[1].get_package_name(), "web-server");
}

#[test]
fn get_package_by_name_resolution() {
    let a = Package::new_with_namespace("tool".to_string(), "alice".to_string(), false, ShellType::Sh);
    let b = Package::new_with_namespace("tool".to_string(), "bob".to_string(), false, ShellType::Sh);
    let pm = manager_with(vec![
        ("/root/.spm/packages/alice/tool", a),
        ("/root/.spm/packages/bob/tool", b),
    ]);
    let qualified = pm.get_package_by_name("bob/tool".to_string()).unwrap();
    assert_eq!(qualified.get_full_name(), "bob/tool");
    let first = pm.get_package_by_name("tool".to_string()).unwrap();
    assert_eq!(first.get_full_name(), "alice/tool");
    assert_eq!(
        pm.get_package_by_name("missing".to_string()).unwrap_err(),
        SpmError::PackageNotFound
    );
    assert_eq!(
        pm.get_package_by_name("a/b/c".to_string()).unwrap_err(),
        SpmError::PackageNotFound
    );
}

#[test]
fn store_missing_yields_error_and_empty_search() {
    let pm = PackageManager::new("/root/.spm".to_string());
    assert_eq!(pm.get_installed_packages().unwrap_err(), SpmError::StoreMissing);
    assert_eq!(pm.keyword_search("web").unwrap().len(), 0);
}

#[test]
fn uninstall_by_name_removes_entry() {
    let a = Package::new_with_namespace("tool".to_string(), "alice".to_string(), false, ShellType::Sh);
    let mut pm = manager_with(vec![("/root/.spm/packages/alice/tool", a)]);
    let plan = pm.uninstall_package_by_name("alice/tool".to_string(), true).unwrap();
    assert_eq!(plan.package_path, "/root/.spm/packages/alice/tool");
    assert_eq!(
        plan.uninstall_script_path,
        "/root/.spm/packages/alice/tool/uninstall.sh"
    );
    assert_eq!(pm.get_installed_packages().unwrap().len(), 0);
    assert_eq!(
        pm.uninstall_package_by_name("alice/tool".to_string(), true).unwrap_err(),
        SpmError::PackageNotFound
    );
}

#[test]
fn uninstall_missing_script_deletes_nothing() {
    let a = Package::new_with_namespace("tool".to_string(), "alice".to_string(), false, ShellType::Sh);
    let mut pm = manager_with(vec![("/root/.spm/packages/alice/tool", a)]);
    let denied = pm.uninstall_package_by_name("alice/tool".to_string(), false);
    assert_eq!(denied.unwrap_err(), SpmError::UninstallScriptMissing);
    // the entry stays: nothing may be deleted without the teardown script
    assert_eq!(pm.get_installed_packages().unwrap().len(), 1);
}

#[test]
fn install_requires_setup_script() {
    let pm = PackageManager::new("/root/.spm".to_string());
    assert_eq!(pm.finish_install(true), Ok(()));
    assert_eq!(pm.finish_install(false).unwrap_err(), SpmError::SetupScriptMissing);
}

#[test]
fn create_package_scaffold_end_to_end() {
    let package = Package::new("demo".to_string(), false, ShellType::Sh);
    assert_eq!(package.access_main_entrypoint(), "main.sh");
    let pm = PackageManager::new("/root/.spm".to_string());
    let plan = pm.create_package("/tmp/demo", &package, true).unwrap();
    assert_eq!(plan.dirs.len(), 3);
    assert_eq!(plan.dirs[0], "/tmp/demo/src");
    assert_eq!(plan.dirs[1], "/tmp/demo/src/std");
    assert_eq!(plan.dirs[2], "/tmp/demo/dependencies");
    assert_eq!(plan.files.len(), 5);
    assert_eq!(plan.files[0].path, "/tmp/demo/main.sh");
    assert!(plan.files[0].contents.starts_with("#!/usr/bin/env sh"));
    assert_eq!(plan.files[1].path, "/tmp/demo/package.json");
    assert_eq!(plan.files[2].path, "/tmp/demo/install.sh");
    assert_eq!(plan.files[3].path, "/tmp/demo/uninstall.sh");
    assert_eq!(plan.files[4].path, "/tmp/demo/src/std/include.sh");
    let loaded = parse_manifest(plan.files[1].contents.as_str()).unwrap();
    assert_eq!(loaded.name, "demo");
    assert_eq!(loaded.entrypoint, "main.sh");
    let refused = pm.create_package("/tmp/demo-file", &package, false);
    assert!(matches!(refused, Err(SpmError::NotADirectory)));
}

#[test]
fn test_create_std_library() {
    let package = Package::new("test-package".to_string(), false, ShellType::Sh);
    let pm = PackageManager::new("/root/.spm".to_string());
    let plan = pm.create_package("/tmp/test-package", &package, true).unwrap();
    // the standard library lives under src/std and carries the include helper
    assert!(plan.dirs.contains(&"/tmp/test-package/src/std".to_string()));
    let helper = &plan.files[4];
    assert_eq!(helper.path, "/tmp/test-package/src/std/include.sh");
    assert!(helper.executable);
    assert!(helper.contents.contains("include()"));
    assert!(helper.contents.contains("SPM_INCLUDED_FILES"));
}

#[test]
fn remove_dependency_absent_slot_leaves_manifest_unchanged() {
    let package = Package::new("app".to_string(), false, ShellType::Sh);
    let mut lpm = LocalPackageManager::new("/work/app".to_string(), package);
    let before = lpm.update_package_json();
    let result = lpm.remove_dependency("ghost", "nowhere");
    assert!(matches!(result, Err(SpmError::DependencyNotFound)));
    let after = lpm.update_package_json();
    assert_eq!(before, after);
}

#[test]
fn add_then_remove_dependency_round_trip() {
    let package = Package::new("app".to_string(), false, ShellType::Sh);
    let mut lpm = LocalPackageManager::new("/work/app".to_string(), package);
    let library = Package::new("logger".to_string(), true, ShellType::Sh);
    let plan = lpm
        .add_dependency(&library, "https://github.com/alice/logger", "1.0.0", false, true, false)
        .unwrap();
    assert_eq!(plan.dependency.name, "logger");
    assert_eq!(plan.dependency.namespace, "alice");
    assert_eq!(plan.target_path, "/work/app/dependencies/alice/logger");
    assert!(plan.manifest_text.contains("alice/logger") || plan.manifest_text.contains("logger"));
    let removal = lpm.remove_dependency("logger", "alice").unwrap();
    assert_eq!(removal.removed.url, "https://github.com/alice/logger");
    assert_eq!(removal.slot_dir_path, "/work/app/dependencies/alice/logger");
}

#[test]
fn add_dependency_rejections() {
    let package = Package::new("app".to_string(), false, ShellType::Sh);
    let mut lpm = LocalPackageManager::new("/work/app".to_string(), package);
    let library = Package::new("logger".to_string(), true, ShellType::Sh);
    let not_library = Package::new("tool".to_string(), false, ShellType::Sh);
    assert_eq!(
        lpm.add_dependency(&library, "nourl", "1.0.0", false, true, false).unwrap_err(),
        SpmError::InvalidInput
    );
    assert_eq!(
        lpm.add_dependency(&library, "a/b", "1.0.0", false, false, false).unwrap_err(),
        SpmError::BrokenPackage(spm::IntegrityPart::DependenciesFolder)
    );
    assert_eq!(
        lpm.add_dependency(&library, "a/b", "1.0.0", false, true, true).unwrap_err(),
        SpmError::DependencySlotExists
    );
    assert_eq!(
        lpm.add_dependency(&not_library, "a/b", "1.0.0", false, true, false).unwrap_err(),
        SpmError::NotALibrary
    );
}

#[test]
fn refresh_with_no_dependencies_is_empty() {
    let package = Package::new("app".to_string(), false, ShellType::Sh);
    let lpm = LocalPackageManager::new("/work/app".to_string(), package);
    let plans = lpm.refresh_dependencies(None);
    assert_eq!(plans.len(), 0);
    // the only write left is re-serializing the unchanged manifest
    let text = lpm.update_package_json();
    assert_eq!(parse_manifest(text.as_str()).unwrap().name, "app");
}

#[test]
fn refresh_plans_use_override_version() {
    let package = Package::new("app".to_string(), false, ShellType::Sh);
    let mut lpm = LocalPackageManager::new("/work/app".to_string(), package);
    let library = Package::new("logger".to_string(), true, ShellType::Sh);
    lpm.add_dependency(&library, "alice/logger", "1.0.0", false, true, false).unwrap();
    let plans = lpm.refresh_dependencies(Some("2.0.0"));
    assert_eq!(plans.len(), 1);
    assert_eq!(plans[0].url, "alice/logger");
    assert_eq!(plans[0].effective_version, "2.0.0");
    assert_eq!(plans[0].target_path, "/work/app/dependencies/alice/logger");
    assert_eq!(plans[0].full_name, "alice/logger");
    let stored = lpm.refresh_dependencies(None);
    assert_eq!(stored[0].effective_version, "1.0.0");
}

#[test]
fn finish_dependency_update_validates_library() {
    let package = Package::new("app".to_string(), false, ShellType::Sh);
    let mut lpm = LocalPackageManager::new("/work/app".to_string(), package);
    let library = Package::new("logger".to_string(), true, ShellType::Sh);
    lpm.add_dependency(&library, "alice/logger", "1.0.0", false, true, false).unwrap();
    let not_library = Package::new("tool".to_string(), false, ShellType::Sh);
    assert_eq!(
        lpm.finish_dependency_update(0, &not_library, "2.0.0".to_string()).unwrap_err(),
        SpmError::NotALibrary
    );
    assert_eq!(lpm.package.dependencies.get_all()[0].version, "1.0.0");
    lpm.finish_dependency_update(0, &library, "2.0.0".to_string()).unwrap();
    assert_eq!(lpm.package.dependencies.get_all()[0].version, "2.0.0");
}

#[test]
fn load_package_json_error_taxonomy() {
    let package = Package::new("app".to_string(), false, ShellType::Sh);
    let lpm = LocalPackageManager::new("/work/app".to_string(), package);
    let good_facts = spm::manifest::PackageDirFacts {
        entrypoint_is_file: true,
        setup_script_is_file: true,
        uninstall_script_is_file: true,
        dependencies_is_dir: true,
        src_is_dir: true,
    };
    assert_eq!(
        lpm.load_package_json(false, "", &good_facts).unwrap_err(),
        SpmError::MissingManifest
    );
    assert_eq!(
        lpm.load_package_json(true, "not json", &good_facts).unwrap_err(),
        SpmError::MalformedManifest
    );
    let text = lpm.update_package_json();
    let mut broken_facts = good_facts;
    broken_facts.src_is_dir = false;
    assert_eq!(
        lpm.load_package_json(true, text.as_str(), &broken_facts).unwrap_err(),
        SpmError::BrokenPackage(spm::IntegrityPart::SrcFolder)
    );
    assert_eq!(
        lpm.load_package_json(true, text.as_str(), &good_facts).unwrap().name,
        "app"
    );
}
