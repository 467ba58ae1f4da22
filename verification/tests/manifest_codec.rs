use spm::codec::parse_manifest;
use spm::codec::write_manifest;
use spm::dependency::Dependencies;
use spm::dependency::Dependency;
use spm::manifest::normalize_package_name;
use spm::manifest::verify_package_integrity;
use spm::manifest::Package;
use spm::manifest::PackageDirFacts;
use spm::shell::ShellType;
use spm::IntegrityPart;
use spm::SpmError;

fn all_facts_good() -> PackageDirFacts {
    PackageDirFacts {
        entrypoint_is_file: true,
        setup_script_is_file: true,
        uninstall_script_is_file: true,
        dependencies_is_dir: true,
        src_is_dir: true,
    }
}

#[test]
fn write_manifest_canonical_document() {
    let package = Package::new("demo".to_string(), false, ShellType::Sh);
    let text = write_manifest(&package);
    assert_eq!(
        text,
        "{\"name\":\"demo\",\"namespace\":\"default-namespace\",\
         \"description\":\"Default description\",\"version\":\"0.1.0\",\
         \"interpreter\":\"sh\",\"is_library\":false,\"entrypoint\":\"main.sh\",\
         \"install\":{\"setup_script\":\"install.sh\",\
         \"register_to_environment_tool\":false},\"uninstall\":\"uninstall.sh\",\
         \"dependencies\":[]}"
    );
}

#[test]
fn manifest_round_trip_plain() {
    let mut package = Package::new_with_namespace(
        "web-server".to_string(),
        "user".to_string(),
        true,
        ShellType::Bash,
    );
    package.description = "serves the web".to_string();
    package.version = "2.1.0".to_string();
    let text = write_manifest(&package);
    let loaded = parse_manifest(text.as_str()).expect("canonical document must parse");
    assert_eq!(loaded.name, "web-server");
    assert_eq!(loaded.namespace, Some("user".to_string()));
    assert_eq!(loaded.description, "serves the web");
    assert_eq!(loaded.version, "2.1.0");
    assert_eq!(loaded.interpreter, ShellType::Bash);
    assert!(loaded.is_library);
    assert_eq!(loaded.entrypoint, "lib.sh");
    assert_eq!(loaded.install.setup_script, "install.sh");
    assert!(!loaded.install.register_to_environment_tool);
    assert_eq!(loaded.uninstall, "uninstall.sh");
    assert!(loaded.dependencies.is_empty());
}

#[test]
fn manifest_round_trip_rederives_dependencies() {
    let mut package = Package::new("app".to_string(), false, ShellType::Sh);
    let mut deps = Dependencies::new(Vec::new());
    let dep = Dependency::new(
        "https://github.com/alice/logger.git".to_string(),
        "1.2.3".to_string(),
        false,
    )
    .unwrap();
    deps.add(dep);
    package.replace_dependencies(deps);
    let text = write_manifest(&package);
    let loaded = parse_manifest(text.as_str()).expect("document with dependencies must parse");
    let all = loaded.dependencies.get_all();
    assert_eq!(all.len(), 1);
    assert_eq!(all[0].url, "https://github.com/alice/logger.git");
    assert_eq!(all[0].version, "1.2.3");
    assert_eq!(all[0].name, "logger");
    assert_eq!(all[0].namespace, "alice");
}

#[test]
fn manifest_round_trip_escaped_strings() {
    let mut package = Package::new("q".to_string(), false, ShellType::Zsh);
    package.description = "a \"quoted\" desc with a back\\slash".to_string();
    let text = write_manifest(&package);
    let loaded = parse_manifest(text.as_str()).unwrap();
    assert_eq!(loaded.description, "a \"quoted\" desc with a back\\slash");
}

#[test]
fn manifest_round_trip_no_namespace() {
    let mut package = Package::new("bare".to_string(), false, ShellType::Cmd);
    package.namespace = None;
    let text = write_manifest(&package);
    assert!(text.contains("\"namespace\":null"));
    let loaded = parse_manifest(text.as_str()).unwrap();
    assert_eq!(loaded.namespace, None);
    assert_eq!(loaded.get_full_name(), "bare");
}

#[test]
fn parse_tolerates_insignificant_whitespace() {
    let pretty = "{\n  \"name\": \"demo\",\n  \"namespace\": \"user\",\n  \"description\": \"a b\",\n  \"version\": \"0.1.0\",\n  \"interpreter\": \"sh\",\n  \"is_library\": false,\n  \"entrypoint\": \"main.sh\",\n  \"install\": {\n    \"setup_script\": \"install.sh\",\n    \"register_to_environment_tool\": false\n  },\n  \"uninstall\": \"uninstall.sh\",\n  \"dependencies\": [\n    {\n      \"url\": \"alice/logger\",\n      \"version\": \"1.0.0\"\n    }\n  ]\n}\n";
    let loaded = parse_manifest(pretty).expect("a pretty-printed document must parse");
    assert_eq!(loaded.name, "demo");
    assert_eq!(loaded.namespace, Some("user".to_string()));
    assert_eq!(loaded.description, "a b");
    assert_eq!(loaded.interpreter, ShellType::Sh);
    assert_eq!(loaded.entrypoint, "main.sh");
    let all = loaded.dependencies.get_all();
    assert_eq!(all.len(), 1);
    assert_eq!(all[0].url, "alice/logger");
    assert_eq!(all[0].name, "logger");
    assert_eq!(all[0].namespace, "alice");
    // whitespace inside string values is significant and kept
    assert_eq!(parse_manifest("{\"name\" : \"a b\",\"namespace\":null,\"description\":\"\",\"version\":\"\",\"interpreter\":\"sh\",\"is_library\":false,\"entrypoint\":\"e\",\"install\":{\"setup_script\":\"s\",\"register_to_environment_tool\":false},\"uninstall\":\"u\",\"dependencies\":[]}").unwrap().name, "a b");
}

#[test]
fn parse_rejects_malformed_document() {
    assert_eq!(parse_manifest("{").unwrap_err(), SpmError::MalformedManifest);
    assert_eq!(parse_manifest("").unwrap_err(), SpmError::MalformedManifest);
    assert_eq!(
        parse_manifest("{\"name\":\"x\",\"namespace\":null}").unwrap_err(),
        SpmError::MalformedManifest
    );
}

#[test]
fn full_name_formats() {
    let package = Package::new_with_namespace(
        "pkg".to_string(),
        "ns".to_string(),
        false,
        ShellType::Sh,
    );
    assert_eq!(package.get_full_name(), "ns/pkg");
    assert_eq!(package.access_main_entrypoint(), "main.sh");
}

#[test]
fn integrity_check_reports_first_failure() {
    assert_eq!(verify_package_integrity(&all_facts_good()), Ok(()));
    let mut facts = all_facts_good();
    facts.entrypoint_is_file = false;
    assert_eq!(
        verify_package_integrity(&facts),
        Err(SpmError::BrokenPackage(IntegrityPart::Entrypoint))
    );
    let mut facts = all_facts_good();
    facts.setup_script_is_file = false;
    assert_eq!(
        verify_package_integrity(&facts),
        Err(SpmError::BrokenPackage(IntegrityPart::SetupScript))
    );
    let mut facts = all_facts_good();
    facts.uninstall_script_is_file = false;
    assert_eq!(
        verify_package_integrity(&facts),
        Err(SpmError::BrokenPackage(IntegrityPart::UninstallScript))
    );
    let mut facts = all_facts_good();
    facts.dependencies_is_dir = false;
    assert_eq!(
        verify_package_integrity(&facts),
        Err(SpmError::BrokenPackage(IntegrityPart::DependenciesFolder))
    );
    let mut facts = all_facts_good();
    facts.src_is_dir = false;
    assert_eq!(
        verify_package_integrity(&facts),
        Err(SpmError::BrokenPackage(IntegrityPart::SrcFolder))
    );
}

#[test]
fn load_verifies_well_formedness() {
    let package = Package::new("demo".to_string(), false, ShellType::Sh);
    let text = write_manifest(&package);
    let good = all_facts_good();
    assert_eq!(
        Package::from_file(false, text.as_str(), &good).unwrap_err(),
        SpmError::MissingManifest
    );
    assert_eq!(
        Package::from_file(true, "{broken", &good).unwrap_err(),
        SpmError::MalformedManifest
    );
    let mut no_entrypoint = good;
    no_entrypoint.entrypoint_is_file = false;
    assert_eq!(
        Package::from_file(true, text.as_str(), &no_entrypoint).unwrap_err(),
        SpmError::BrokenPackage(IntegrityPart::Entrypoint)
    );
    let mut no_deps_dir = good;
    no_deps_dir.dependencies_is_dir = false;
    assert_eq!(
        Package::from_file(true, text.as_str(), &no_deps_dir).unwrap_err(),
        SpmError::BrokenPackage(IntegrityPart::DependenciesFolder)
    );
    let loaded = Package::from_file(true, text.as_str(), &good).unwrap();
    assert_eq!(loaded.name, "demo");
    assert_eq!(loaded.entrypoint, "main.sh");
    assert!(!loaded.is_library);
}

#[test]
fn rederive_dependencies_honours_local_paths() {
    let mut package = Package::new("app".to_string(), false, ShellType::Sh);
    let mut deps = Dependencies::new(Vec::new());
    deps.add(Dependency::new("/home/u/mylib".to_string(), "1.0.0".to_string(), false).unwrap());
    package.replace_dependencies(deps);
    // the persisted form derives by the remote rule on load
    let loaded = parse_manifest(write_manifest(&package).as_str()).unwrap();
    assert_eq!(loaded.dependencies.get_all()[0].name, "mylib");
    assert_eq!(loaded.dependencies.get_all()[0].namespace, "u");
    // the caller probed the disk: the url is an existing local path
    let mut rederived = loaded;
    rederived.rederive_dependencies(&vec![true]).unwrap();
    assert_eq!(rederived.dependencies.get_all()[0].name, "mylib");
    assert_eq!(rederived.dependencies.get_all()[0].namespace, "local");
    assert_eq!(rederived.dependencies.get_all()[0].url, "/home/u/mylib");
    assert_eq!(rederived.dependencies.get_all()[0].version, "1.0.0");
}

#[test]
fn local_single_segment_dependency_survives_a_round_trip() {
    // a dependency added from a local path with a single segment: the
    // written document must load back, with the slot pending until the
    // caller confirms the path is local
    let mut package = Package::new("app".to_string(), false, ShellType::Sh);
    let mut deps = Dependencies::new(Vec::new());
    deps.add(Dependency::new("mylib".to_string(), "1.0.0".to_string(), true).unwrap());
    package.replace_dependencies(deps);
    assert_eq!(package.dependencies.get_all()[0].namespace, "local");
    let text = write_manifest(&package);
    let mut loaded = parse_manifest(text.as_str()).expect("a written manifest must load");
    assert_eq!(loaded.dependencies.get_all()[0].url, "mylib");
    assert_eq!(loaded.dependencies.get_all()[0].version, "1.0.0");
    // the remote rule cannot derive a single segment: the slot is pending
    assert_eq!(loaded.dependencies.get_all()[0].name, "");
    assert_eq!(loaded.dependencies.get_all()[0].namespace, "");
    // the caller probed the disk: the url is an existing local path
    loaded.rederive_dependencies(&vec![true]).unwrap();
    assert_eq!(loaded.dependencies.get_all()[0].name, "mylib");
    assert_eq!(loaded.dependencies.get_all()[0].namespace, "local");
}

#[test]
fn rederive_dependencies_rejects_underivable_urls() {
    let mut package = Package::new("app".to_string(), false, ShellType::Sh);
    let mut deps = Dependencies::new(Vec::new());
    // a bare name only derives while it names an existing local path
    deps.add(Dependency::new("mylib".to_string(), "1.0.0".to_string(), true).unwrap());
    package.replace_dependencies(deps);
    assert_eq!(package.dependencies.get_all()[0].namespace, "local");
    let denied = package.rederive_dependencies(&vec![false]);
    assert_eq!(denied.unwrap_err(), SpmError::InvalidInput);
    // the manifest is untouched on failure
    assert_eq!(package.dependencies.get_all()[0].namespace, "local");
}

#[test]
fn manifest_path_resolution() {
    assert_eq!(spm::manifest::resolve_manifest_path("/work/app"), "/work/app/package.json");
    assert_eq!(
        spm::manifest::resolve_manifest_path("/work/app/package.json"),
        "/work/app/package.json"
    );
    assert_eq!(spm::manifest::resolve_manifest_path("package.json"), "package.json");
}

#[test]
fn directory_listing_marks_packages() {
    let with = vec!["src".to_string(), "package.json".to_string(), "main.sh".to_string()];
    let without = vec!["src".to_string(), "main.sh".to_string()];
    assert!(spm::manifest::is_inside_a_package(&with));
    assert!(!spm::manifest::is_inside_a_package(&without));
}

#[test]
fn normalize_package_name_rules() {
    assert_eq!(normalize_package_name("web_server"), "web-server");
    assert_eq!(normalize_package_name("WebServer"), "web-server");
    assert_eq!(normalize_package_name("-already-dashed"), "already-dashed");
    assert_eq!(normalize_package_name("plain"), "plain");
}

#[test]
fn shell_type_parsing_and_shebangs() {
    assert_eq!(ShellType::from_str("sh"), Ok(ShellType::Sh));
    assert_eq!(ShellType::from_str("BASH"), Ok(ShellType::Bash));
    assert_eq!(ShellType::from_str("Zsh"), Ok(ShellType::Zsh));
    assert_eq!(ShellType::from_str("cmd"), Ok(ShellType::Cmd));
    assert_eq!(ShellType::from_str("fish"), Err(SpmError::InvalidInput));
    assert_eq!(ShellType::Sh.get_shebang(), "#!/usr/bin/env sh");
    assert_eq!(ShellType::Bash.get_shebang(), "#!/usr/bin/env bash");
    assert_eq!(ShellType::Bash.name(), "bash");
}
