use spm::gitplan::clone_destination;
use spm::gitplan::construct_dependency_path;
use spm::gitplan::extract_repo_name_from_url;
use spm::gitplan::handle_installation_path;
use spm::gitplan::join_clone_url;
use spm::gitplan::resolve_version_checkout;
use spm::gitplan::InstallSource;
use spm::program::detect_interpreter_from_content;
use spm::program::normalize_program_name;
use spm::program::Program;
use spm::program::ProgramManager;
use spm::shell::ShellType;
use spm::IntegrityPart;
use spm::SpmError;

#[test]
fn clone_url_respects_trailing_slash() {
    assert_eq!(
        join_clone_url("https://github.com", "user/repo"),
        "https://github.com/user/repo"
    );
    assert_eq!(
        join_clone_url("https://github.com/", "user/repo"),
        "https://github.com/user/repo"
    );
}

#[test]
fn repo_name_extraction() {
    assert_eq!(extract_repo_name_from_url("https://github.com/u/repo.git"), "repo");
    assert_eq!(extract_repo_name_from_url("https://github.com/u/repo"), "repo");
    assert_eq!(extract_repo_name_from_url("repo.git.git"), "repo");
}

#[test]
fn clone_destination_choices() {
    assert_eq!(
        clone_destination("https://github.com/u/repo.git", Some("/tmp/dest"), "/root/.spm/tmp"),
        "/tmp/dest"
    );
    assert_eq!(
        clone_destination("https://github.com/u/repo.git", None, "/root/.spm/tmp"),
        "/root/.spm/tmp/repo"
    );
}

#[test]
fn version_checkout_decision() {
    let plan = resolve_version_checkout(Some("tagrev".to_string()), None, false).unwrap();
    assert_eq!(plan.revision, "tagrev");
    assert!(plan.create_branch);
    let plan = resolve_version_checkout(
        Some("tagrev".to_string()),
        Some("branchrev".to_string()),
        true,
    )
    .unwrap();
    assert_eq!(plan.revision, "tagrev");
    assert!(!plan.create_branch);
    let plan = resolve_version_checkout(None, Some("branchrev".to_string()), false).unwrap();
    assert_eq!(plan.revision, "branchrev");
    assert_eq!(
        resolve_version_checkout(None, None, false).unwrap_err(),
        SpmError::VersionNotFound
    );
}

#[test]
fn installation_path_handling() {
    match handle_installation_path("user/repo", "https://github.com", false).unwrap() {
        InstallSource::Remote { string_representation, repository } => {
            assert_eq!(string_representation, "https://github.com/user/repo");
            assert_eq!(repository, "user/repo");
        },
        InstallSource::Local { .. } => panic!("expected a remote source"),
    }
    match handle_installation_path("./pkg", "https://github.com", true).unwrap() {
        InstallSource::Local { package_path } => assert_eq!(package_path, "./pkg"),
        InstallSource::Remote { .. } => panic!("expected a local source"),
    }
    assert_eq!(
        handle_installation_path("justname", "https://github.com", false).unwrap_err(),
        SpmError::InvalidInput
    );
}

#[test]
fn dependency_path_construction() {
    assert_eq!(
        construct_dependency_path("/work/app", "alice", "logger", true, true).unwrap(),
        "/work/app/dependencies/alice/logger"
    );
    assert_eq!(
        construct_dependency_path("/work/app", "alice", "logger", false, true).unwrap_err(),
        SpmError::BrokenPackage(IntegrityPart::DependenciesFolder)
    );
    assert_eq!(
        construct_dependency_path("/work/app", "alice", "logger", true, false).unwrap_err(),
        SpmError::DependencyNotFound
    );
}

#[test]
fn interpreter_detection_from_shebang() {
    assert_eq!(
        detect_interpreter_from_content("#!/usr/bin/env bash\necho hi"),
        ShellType::Bash
    );
    assert_eq!(detect_interpreter_from_content("#!/usr/bin/env zsh\n"), ShellType::Zsh);
    assert_eq!(detect_interpreter_from_content("#!/usr/bin/env cmd\n"), ShellType::Cmd);
    assert_eq!(detect_interpreter_from_content("#!/bin/sh\n"), ShellType::Sh);
    assert_eq!(detect_interpreter_from_content("echo no shebang"), ShellType::Sh);
}

#[test]
fn program_from_file_derives_name() {
    let p = Program::from_file("/scripts/backup.sh", true, "#!/usr/bin/env bash\n").unwrap();
    assert_eq!(p.get_name(), "backup");
    assert_eq!(p.get_program_path(), Some("/scripts/backup.sh"));
    assert_eq!(*p.get_interpreter(), ShellType::Bash);
    assert_eq!(
        Program::from_file("/scripts/backup.sh", false, "").unwrap_err(),
        SpmError::InvalidInput
    );
}

fn program_manager_with(names: Vec<&str>) -> ProgramManager {
    let mut pm = ProgramManager::new("/root/.spm".to_string());
    pm.mark_store_present(true);
    for name in names {
        let mut path = "/root/.spm/programs/".to_string();
        path.push_str(name);
        path.push_str(".sh");
        let mut program = Program::new(name.to_string(), ShellType::Sh);
        program.path_to_program = Some(path);
        pm.record_scanned_program(program);
    }
    pm
}

#[test]
fn program_lookup_and_search() {
    let pm = program_manager_with(vec!["backup", "cleanup"]);
    let found = pm.get_program_by_name("backup".to_string()).unwrap();
    assert_eq!(found.get_name(), "backup");
    assert_eq!(
        pm.get_program_by_name("missing".to_string()).unwrap_err(),
        SpmError::ProgramNotFound
    );
    let results = pm.keyword_search("back").unwrap();
    assert_eq!(results.len(), 1);
    assert_eq!(results[0].get_name(), "backup");
    let exact = pm.keyword_search("cleanup").unwrap();
    assert_eq!(exact[0].get_name(), "cleanup");
}

#[test]
fn program_install_plan_checks() {
    let pm = ProgramManager::new("/root/.spm".to_string());
    let plan = pm.install_program("/scripts/tool.sh", true, false, false).unwrap();
    assert_eq!(plan.destination, "/root/.spm/programs/tool.sh");
    assert_eq!(
        pm.install_program("/scripts/tool.sh", false, false, false).unwrap_err(),
        SpmError::InvalidInput
    );
    assert_eq!(
        pm.install_program("/scripts/tool.txt", true, false, false).unwrap_err(),
        SpmError::InvalidInput
    );
    assert_eq!(
        pm.install_program("/scripts/tool.sh", true, true, false).unwrap_err(),
        SpmError::AlreadyInstalled
    );
    assert!(pm.install_program("/scripts/tool.sh", true, true, true).is_ok());
}

#[test]
fn program_uninstall_removes_entry() {
    let mut pm = program_manager_with(vec!["backup"]);
    let plan = pm.uninstall_program_by_name("backup".to_string()).unwrap();
    assert_eq!(plan.program_path, "/root/.spm/programs/backup.sh");
    assert_eq!(pm.get_installed_programs().unwrap().len(), 0);
    assert_eq!(
        pm.uninstall_program_by_name("backup".to_string()).unwrap_err(),
        SpmError::ProgramNotFound
    );
}

#[test]
fn program_creation_content() {
    let pm = ProgramManager::new("/root/.spm".to_string());
    let program = Program::new("hello".to_string(), ShellType::Sh);
    let contents = pm.create_program(&program, false).unwrap();
    assert_eq!(
        contents,
        "#!/usr/bin/env sh\n\nmain() {\n    echo \"Hello from hello!\"\n}\n\nmain \"$@\""
    );
    assert!(matches!(pm.create_program(&program, true), Err(SpmError::NotADirectory)));
}

#[test]
fn candidate_selection_bounds() {
    assert_eq!(spm::program::select_candidate(1, 3), Ok(0));
    assert_eq!(spm::program::select_candidate(3, 3), Ok(2));
    assert_eq!(
        spm::program::select_candidate(0, 3).unwrap_err(),
        SpmError::AmbiguousSelection
    );
    assert_eq!(
        spm::program::select_candidate(4, 3).unwrap_err(),
        SpmError::AmbiguousSelection
    );
}

#[test]
fn error_messages_are_nonempty() {
    assert!(!SpmError::MissingManifest.message().is_empty());
    assert!(!SpmError::GitTransportError.message().is_empty());
    assert!(!SpmError::ScriptFailed.message().is_empty());
    assert!(!SpmError::BrokenPackage(IntegrityPart::SrcFolder).message().is_empty());
}

#[test]
fn normalize_program_name_rules() {
    assert_eq!(normalize_program_name("My_Script"), "my--script");
    assert_eq!(normalize_program_name("backup"), "backup");
}
