//! The error taxonomy of the package manager core.
//!
//! Every fallible operation of the library reports one of these typed
//! failures; the surrounding binary renders them for the user.

use vstd::prelude::*;

verus! {

/// The part of a package directory whose absence makes the package broken.
#[derive(Clone, Copy, Debug, PartialEq, Eq, Structural)]
pub enum IntegrityPart {
    /// The entrypoint script named by the manifest.
    Entrypoint,
    /// The setup script named by the manifest.
    SetupScript,
    /// The uninstall script named by the manifest.
    UninstallScript,
    /// The `dependencies/` directory.
    DependenciesFolder,
    /// The `src/` directory.
    SrcFolder,
}

/// A typed failure of a core operation.
#[derive(Clone, Copy, Debug, PartialEq, Eq, Structural)]
pub enum SpmError {
    /// No manifest file was found where one was required.
    MissingManifest,
    /// The manifest file exists but could not be parsed.
    MalformedManifest,
    /// The manifest parsed but a required sibling file or directory is absent.
    BrokenPackage(IntegrityPart),
    /// The installation destination is already occupied and no force flag was given.
    AlreadyInstalled,
    /// The package declares a setup script that is not present.
    SetupScriptMissing,
    /// The package declares an uninstall script that is not present.
    UninstallScriptMissing,
    /// The requested dependency slot is not declared in the manifest.
    DependencyNotFound,
    /// The dependency slot directory already exists on disk.
    DependencySlotExists,
    /// The dependency target is not marked as a library package.
    NotALibrary,
    /// The requested version matched neither a tag nor a remote branch.
    VersionNotFound,
    /// An opaque git transport or repository failure.
    GitTransportError,
    /// A user selection was out of range.
    AmbiguousSelection,
    /// The given text could not be understood (bad url, name or path shape).
    InvalidInput,
    /// The root installation directory does not exist.
    StoreMissing,
    /// No installed package has the requested name.
    PackageNotFound,
    /// No installed program has the requested name.
    ProgramNotFound,
    /// The target of a scaffold operation is not a directory.
    NotADirectory,
    /// A non-zero exit status or spawn failure of an external script.
    ScriptFailed,
}

impl SpmError {
    /// A short, fixed description of the failure.
    pub fn message(&self) -> (r: &'static str)
        ensures
            r@.len() > 0,
    {
        let m: &'static str = match self {
            SpmError::MissingManifest => "the package.json file is missing in the provided package path",
            SpmError::MalformedManifest => "failed to parse the package.json file",
            SpmError::BrokenPackage(IntegrityPart::Entrypoint) => "entrypoint is missing in the provided package path",
            SpmError::BrokenPackage(IntegrityPart::SetupScript) => "setup script is missing in the provided package path",
            SpmError::BrokenPackage(IntegrityPart::UninstallScript) => "uninstall script is missing in the provided package path",
            SpmError::BrokenPackage(IntegrityPart::DependenciesFolder) => "dependencies folder is missing in the provided package path",
            SpmError::BrokenPackage(IntegrityPart::SrcFolder) => "src folder is missing in the provided package path",
            SpmError::AlreadyInstalled => "the package is already installed; use the force flag to install or update",
            SpmError::SetupScriptMissing => "setup script not found in the package",
            SpmError::UninstallScriptMissing => "uninstall script not found in the package",
            SpmError::DependencyNotFound => "dependency not found in package.json",
            SpmError::DependencySlotExists => "dependency is already installed; consider updating instead",
            SpmError::NotALibrary => "the package is not marked as a library; only libraries can be added as dependencies",
            SpmError::VersionNotFound => "version not found in repository",
            SpmError::GitTransportError => "a git operation failed",
            SpmError::AmbiguousSelection => "invalid selection",
            SpmError::InvalidInput => "wrong input",
            SpmError::StoreMissing => "the installation directory does not exist",
            SpmError::PackageNotFound => "package with the given name not found",
            SpmError::ProgramNotFound => "program with the given name not found",
            SpmError::NotADirectory => "a shell script project must be initialized in a directory",
            SpmError::ScriptFailed => "shell interpreter exited with a non-zero status",
        };
        proof {
            assert(m@.len() > 0) by {
                reveal_strlit("the package.json file is missing in the provided package path");
                reveal_strlit("failed to parse the package.json file");
                reveal_strlit("entrypoint is missing in the provided package path");
                reveal_strlit("setup script is missing in the provided package path");
                reveal_strlit("uninstall script is missing in the provided package path");
                reveal_strlit("dependencies folder is missing in the provided package path");
                reveal_strlit("src folder is missing in the provided package path");
                reveal_strlit("the package is already installed; use the force flag to install or update");
                reveal_strlit("setup script not found in the package");
                reveal_strlit("uninstall script not found in the package");
                reveal_strlit("dependency not found in package.json");
                reveal_strlit("dependency is already installed; consider updating instead");
                reveal_strlit("the package is not marked as a library; only libraries can be added as dependencies");
                reveal_strlit("version not found in repository");
                reveal_strlit("a git operation failed");
                reveal_strlit("invalid selection");
                reveal_strlit("wrong input");
                reveal_strlit("the installation directory does not exist");
                reveal_strlit("package with the given name not found");
                reveal_strlit("program with the given name not found");
                reveal_strlit("a shell script project must be initialized in a directory");
                reveal_strlit("shell interpreter exited with a non-zero status");
            }
        }
        m
    }
}

} // verus!
