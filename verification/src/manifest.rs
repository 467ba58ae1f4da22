//! The package manifest: identity, version, interpreter, entrypoint,
//! install/uninstall scripts and the dependency collection, together with
//! the well-formedness check a loaded manifest must pass.

use vstd::prelude::*;

use crate::dependency::Dependencies;
use crate::dependency::Dependency;
use crate::errors::IntegrityPart;
use crate::errors::SpmError;
use crate::shell::ShellType;

verus! {

/// The default entrypoint file name of an executable package.
pub open spec fn default_executable_entrypoint() -> Seq<char> {
    "main.sh"@
}

/// The default entrypoint file name of a library package.
pub open spec fn default_library_entrypoint() -> Seq<char> {
    "lib.sh"@
}

/// The namespace a package gets when none is supplied.
pub open spec fn default_namespace() -> Seq<char> {
    "default-namespace"@
}

/// The fixed name of the manifest file inside a package directory.
pub fn package_json_name() -> (r: &'static str)
    ensures
        r@ == "package.json"@,
{
    "package.json"
}

/// The ghost shape of one dependency: what the manifest stores plus the
/// derived slot.
pub struct DepModel {
    /// The persisted url.
    pub url: Seq<char>,
    /// The persisted version.
    pub version: Seq<char>,
    /// The derived slot name.
    pub name: Seq<char>,
    /// The derived slot namespace.
    pub namespace: Seq<char>,
}

/// The ghost shape of a whole manifest.
pub struct PkgModel {
    /// The package name.
    pub name: Seq<char>,
    /// The optional namespace.
    pub namespace: Option<Seq<char>>,
    /// The free-form description.
    pub description: Seq<char>,
    /// The free-form version.
    pub version: Seq<char>,
    /// The declared interpreter.
    pub interpreter: ShellType,
    /// Whether the package may serve as a dependency.
    pub is_library: bool,
    /// The entrypoint file name.
    pub entrypoint: Seq<char>,
    /// The setup script file name.
    pub setup_script: Seq<char>,
    /// Whether installation registers the package with an environment tool.
    pub register_to_environment_tool: bool,
    /// The uninstall script file name.
    pub uninstall: Seq<char>,
    /// The dependencies, in insertion order.
    pub deps: Seq<DepModel>,
}

/// The ghost shape of a dependency value.
pub open spec fn dep_model(d: Dependency) -> DepModel {
    DepModel { url: d.url@, version: d.version@, name: d.name@, namespace: d.namespace@ }
}

/// Represent the installation options of a manifest.
#[derive(Debug)]
pub struct InstallationOptions {
    /// Script to run when the package is installed.
    pub setup_script: String,
    /// Whether to register the package in the environment tool.
    pub register_to_environment_tool: bool,
}

impl Clone for InstallationOptions {
    /// Copies both fields.
    fn clone(&self) -> (res: Self)
        ensures
            res == *self,
    {
        InstallationOptions {
            setup_script: self.setup_script.clone(),
            register_to_environment_tool: self.register_to_environment_tool,
        }
    }
}

/// Represent the manifest file under a shell script package's root
/// directory.
#[derive(Debug)]
pub struct Package {
    /// The name of the package.
    pub name: String,
    /// The optional namespace of the package.
    pub namespace: Option<String>,
    /// A brief description of the package.
    pub description: String,
    /// The package version; no particular grammar is enforced.
    pub version: String,
    /// The interpreter used for the package's scripts.
    pub interpreter: ShellType,
    /// Whether this is a library package.
    pub is_library: bool,
    /// The script executed when the package runs.
    pub entrypoint: String,
    /// Configuration for actions during package installation.
    pub install: InstallationOptions,
    /// The script executed during package uninstallation.
    pub uninstall: String,
    /// The packages this package depends on.
    pub dependencies: Dependencies,
}

impl Package {
    /// The ghost shape of this manifest.
    pub open spec fn model(&self) -> PkgModel {
        PkgModel {
            name: self.name@,
            namespace: match self.namespace {
                Some(ns) => Some(ns@),
                None => None,
            },
            description: self.description@,
            version: self.version@,
            interpreter: self.interpreter,
            is_library: self.is_library,
            entrypoint: self.entrypoint@,
            setup_script: self.install.setup_script@,
            register_to_environment_tool: self.install.register_to_environment_tool,
            uninstall: self.uninstall@,
            deps: self.dependencies@.map_values(|d: Dependency| dep_model(d)),
        }
    }

    /// The full name of a model: `namespace/name` when a namespace is
    /// present, else the bare name.
    pub open spec fn spec_full_name(m: PkgModel) -> Seq<char> {
        match m.namespace {
            Some(ns) => ns + "/"@ + m.name,
            None => m.name,
        }
    }

    /// Build a manifest with the default namespace.  The entrypoint
    /// defaults to the library or executable entrypoint file name
    /// according to `is_library`; every other field takes its default.
    pub fn new(name: String, is_library: bool, interpreter: ShellType) -> (r: Package)
        ensures
            r.name == name,
            r.model().namespace == Some(default_namespace()),
            r.model().description == "Default description"@,
            r.model().version == "0.1.0"@,
            r.interpreter == interpreter,
            r.is_library == is_library,
            r.model().entrypoint == if is_library {
                default_library_entrypoint()
            } else {
                default_executable_entrypoint()
            },
            r.model().setup_script == "install.sh"@,
            !r.install.register_to_environment_tool,
            r.model().uninstall == "uninstall.sh"@,
            r.dependencies@ =~= Seq::<Dependency>::empty(),
            r.dependencies.wf(),
    {
        let entrypoint: String = if is_library {
            "lib.sh".to_owned()
        } else {
            "main.sh".to_owned()
        };
        Package {
            name,
            namespace: Some("default-namespace".to_owned()),
            description: "Default description".to_owned(),
            version: "0.1.0".to_owned(),
            interpreter,
            is_library,
            entrypoint,
            install: InstallationOptions {
                setup_script: "install.sh".to_owned(),
                register_to_environment_tool: false,
            },
            uninstall: "uninstall.sh".to_owned(),
            dependencies: Dependencies::new(Vec::new()),
        }
    }

    /// Build a manifest under the given namespace; the other fields are
    /// chosen as by [`Package::new`].
    pub fn new_with_namespace(
        name: String,
        namespace: String,
        is_library: bool,
        interpreter: ShellType,
    ) -> (r: Package)
        ensures
            r.name == name,
            r.namespace == Some(namespace),
            r.model().description == "Default description"@,
            r.model().version == "0.1.0"@,
            r.interpreter == interpreter,
            r.is_library == is_library,
            r.model().entrypoint == if is_library {
                default_library_entrypoint()
            } else {
                default_executable_entrypoint()
            },
            r.model().setup_script == "install.sh"@,
            !r.install.register_to_environment_tool,
            r.model().uninstall == "uninstall.sh"@,
            r.dependencies@ =~= Seq::<Dependency>::empty(),
            r.dependencies.wf(),
    {
        let entrypoint: String = if is_library {
            "lib.sh".to_owned()
        } else {
            "main.sh".to_owned()
        };
        Package {
            name,
            namespace: Some(namespace),
            description: "Default description".to_owned(),
            version: "0.1.0".to_owned(),
            interpreter,
            is_library,
            entrypoint,
            install: InstallationOptions {
                setup_script: "install.sh".to_owned(),
                register_to_environment_tool: false,
            },
            uninstall: "uninstall.sh".to_owned(),
            dependencies: Dependencies::new(Vec::new()),
        }
    }

    /// The entrypoint file name declared by the manifest.
    pub fn access_main_entrypoint(&self) -> (r: &str)
        ensures
            r@ == self.entrypoint@,
    {
        self.entrypoint.as_str()
    }

    /// The full name: `namespace/name` when a namespace is present.
    pub fn get_full_name(&self) -> (r: String)
        ensures
            r@ == Package::spec_full_name(self.model()),
    {
        match &self.namespace {
            Some(namespace) => {
                let mut r = namespace.clone();
                r.append("/");
                r.append(self.name.as_str());
                r
            },
            None => self.name.clone(),
        }
    }

    /// Read access to the dependency collection.
    pub fn access_dependencies(&self) -> (r: &Dependencies)
        ensures
            r == &self.dependencies,
    {
        &self.dependencies
    }

    /// Replace the dependency collection.
    pub fn replace_dependencies(&mut self, dependencies: Dependencies)
        ensures
            final(self).dependencies == dependencies,
            final(self).name == old(self).name,
            final(self).namespace == old(self).namespace,
            final(self).description == old(self).description,
            final(self).version == old(self).version,
            final(self).interpreter == old(self).interpreter,
            final(self).is_library == old(self).is_library,
            final(self).entrypoint == old(self).entrypoint,
            final(self).install == old(self).install,
            final(self).uninstall == old(self).uninstall,
    {
        self.dependencies = dependencies;
    }

    /// Load a manifest from its file: the file must exist, its text must
    /// parse, and the package directory must pass the well-formedness
    /// check — in that order, so every load verifies the invariant.  The
    /// caller reads the file, then probes the directory for the files the
    /// parsed manifest names and reports the outcome as facts.  The
    /// parse derives every dependency slot by the remote rule; a caller
    /// that can probe the disk re-derives local-path urls afterwards with
    /// [`Package::rederive_dependencies`].
    pub fn from_file(
        manifest_file_exists: bool,
        manifest_text: &str,
        facts: &PackageDirFacts,
    ) -> (r: Result<Package, SpmError>)
        ensures
            match r {
                Ok(p) => manifest_file_exists && crate::codec::spec_parse(manifest_text@) == Some(
                    p.model(),
                ) && first_integrity_failure(*facts) is None,
                Err(e) => if !manifest_file_exists {
                    e == SpmError::MissingManifest
                } else if crate::codec::spec_parse(manifest_text@) is None {
                    e == SpmError::MalformedManifest
                } else {
                    first_integrity_failure(*facts) matches Some(part) && e
                        == SpmError::BrokenPackage(part)
                },
            },
    {
        if !manifest_file_exists {
            return Err(SpmError::MissingManifest);
        }
        let package = match crate::codec::parse_manifest(manifest_text) {
            Ok(p) => p,
            Err(e) => {
                return Err(e);
            },
        };
        match verify_package_integrity(facts) {
            Ok(()) => Ok(package),
            Err(e) => Err(e),
        }
    }

    /// Re-derive every dependency slot from its url, honouring which urls
    /// are existing local paths.  The caller probes the disk for each url
    /// in collection order and reports the outcomes; a url that derives
    /// under neither rule fails the whole re-derivation and leaves the
    /// manifest untouched.
    pub fn rederive_dependencies(&mut self, url_is_local: &Vec<bool>) -> (r: Result<(), SpmError>)
        requires
            url_is_local@.len() == old(self).dependencies@.len(),
        ensures
            match r {
                Ok(()) => {
                    &&& final(self).dependencies@.len() == old(self).dependencies@.len()
                    &&& forall|i: int|
                        0 <= i < old(self).dependencies@.len() ==> {
                            let d0 = old(self).dependencies@[i];
                            let d1 = #[trigger] final(self).dependencies@[i];
                            &&& d1.url@ == d0.url@
                            &&& d1.version@ == d0.version@
                            &&& crate::dependency::derive_name_and_namespace(
                                d0.url@,
                                url_is_local@[i],
                            ) == Some((d1.name@, d1.namespace@))
                        }
                    &&& final(self).name == old(self).name
                    &&& final(self).namespace == old(self).namespace
                    &&& final(self).description == old(self).description
                    &&& final(self).version == old(self).version
                    &&& final(self).interpreter == old(self).interpreter
                    &&& final(self).is_library == old(self).is_library
                    &&& final(self).entrypoint == old(self).entrypoint
                    &&& final(self).install == old(self).install
                    &&& final(self).uninstall == old(self).uninstall
                },
                Err(e) => {
                    &&& *final(self) == *old(self)
                    &&& e == SpmError::InvalidInput
                    &&& exists|i: int|
                        0 <= i < old(self).dependencies@.len()
                            && crate::dependency::derive_name_and_namespace(
                            (#[trigger] old(self).dependencies@[i]).url@,
                            url_is_local@[i],
                        ) is None
                },
            },
    {
        let deps = self.dependencies.get_all();
        let mut rebuilt: Vec<Dependency> = Vec::new();
        let mut i: usize = 0;
        while i < deps.len()
            invariant
                0 <= i <= deps@.len(),
                deps@ == self.dependencies@,
                *self == *old(self),
                url_is_local@.len() == deps@.len(),
                rebuilt@.len() == i,
                forall|k: int|
                    0 <= k < i ==> {
                        let d0 = deps@[k];
                        let d1 = #[trigger] rebuilt@[k];
                        &&& d1.url@ == d0.url@
                        &&& d1.version@ == d0.version@
                        &&& crate::dependency::derive_name_and_namespace(
                            d0.url@,
                            url_is_local@[k],
                        ) == Some((d1.name@, d1.namespace@))
                    },
            decreases deps@.len() - i,
        {
            let d = &deps[i];
            match Dependency::new(d.url.clone(), d.version.clone(), url_is_local[i]) {
                Ok(nd) => {
                    rebuilt.push(nd);
                },
                Err(_) => {
                    return Err(SpmError::InvalidInput);
                },
            }
            i += 1;
        }
        let ghost olds = self.dependencies@;
        self.dependencies = Dependencies::new(rebuilt);
        proof {
            assert(forall|i: int|
                0 <= i < olds.len() ==> olds[i] == #[trigger] old(self).dependencies@[i]);
        }
        Ok(())
    }
}

impl Clone for Package {
    /// Copies every field; the dependency collection keeps its entries.
    fn clone(&self) -> (res: Self)
        ensures
            res.name == self.name,
            res.namespace == self.namespace,
            res.description == self.description,
            res.version == self.version,
            res.interpreter == self.interpreter,
            res.is_library == self.is_library,
            res.entrypoint == self.entrypoint,
            res.install == self.install,
            res.uninstall == self.uninstall,
            res.dependencies@ == self.dependencies@,
            res.model() == self.model(),
    {
        let namespace = match &self.namespace {
            Some(ns) => Some(ns.clone()),
            None => None,
        };
        let res = Package {
            name: self.name.clone(),
            namespace,
            description: self.description.clone(),
            version: self.version.clone(),
            interpreter: self.interpreter,
            is_library: self.is_library,
            entrypoint: self.entrypoint.clone(),
            install: self.install.clone(),
            uninstall: self.uninstall.clone(),
            dependencies: self.dependencies.clone(),
        };
        proof {
            assert(res.model() == self.model());
        }
        res
    }
}

/// Where the manifest file of a load target lives: a path that already
/// names the manifest file is taken as it is, any other path is treated
/// as the containing directory.
pub open spec fn spec_manifest_path(path: Seq<char>) -> Seq<char> {
    if path == "package.json"@ || crate::strutil::ends_with(path, "/package.json"@) {
        path
    } else {
        path + "/package.json"@
    }
}

/// Resolve a load target to its manifest file: the target may be the
/// manifest file itself or the directory that holds it.
pub fn resolve_manifest_path(path: &str) -> (r: String)
    ensures
        r@ == spec_manifest_path(path@),
{
    if crate::strutil::str_eq(path, "package.json") || crate::strutil::ends_with_str(
        path,
        "/package.json",
    ) {
        path.to_owned()
    } else {
        let mut r = path.to_owned();
        r.append("/package.json");
        proof {
            reveal_strlit("/package.json");
        }
        r
    }
}

/// Whether a directory listing shows a package: true exactly when one of
/// the entries is the manifest file name.
pub fn is_inside_a_package(directory_entries: &Vec<String>) -> (r: bool)
    ensures
        r == crate::strutil::views_of(directory_entries@).contains("package.json"@),
{
    let mut i: usize = 0;
    while i < directory_entries.len()
        invariant
            0 <= i <= directory_entries@.len(),
            forall|j: int|
                0 <= j < i ==> crate::strutil::views_of(directory_entries@)[j]
                    != "package.json"@,
        decreases directory_entries@.len() - i,
    {
        if crate::strutil::str_eq(directory_entries[i].as_str(), "package.json") {
            proof {
                assert(crate::strutil::views_of(directory_entries@)[i as int]
                    == "package.json"@);
            }
            return true;
        }
        i += 1;
    }
    proof {
        let vs = crate::strutil::views_of(directory_entries@);
        if vs.contains("package.json"@) {
            let j = choose|j: int| 0 <= j < vs.len() && vs[j] == "package.json"@;
            assert(vs[j] != "package.json"@);
        }
    }
    false
}

/// Normalize a package name for lookup: underscores become hyphens, each
/// ASCII uppercase letter becomes a hyphen plus its lowercase form, and
/// leading hyphens are removed.
pub fn normalize_package_name(name: &str) -> (r: String)
    ensures
        r@ == crate::strutil::normal_name(name@),
{
    crate::strutil::normalize_chars(name)
}

/// What an integrity check observed of a package directory; the caller
/// probes the filesystem and reports the outcome here.
#[derive(Clone, Copy, Debug, PartialEq, Eq, Structural)]
pub struct PackageDirFacts {
    /// Whether the entrypoint named by the manifest exists as a file.
    pub entrypoint_is_file: bool,
    /// Whether the setup script named by the manifest exists as a file.
    pub setup_script_is_file: bool,
    /// Whether the uninstall script named by the manifest exists as a file.
    pub uninstall_script_is_file: bool,
    /// Whether the `dependencies/` directory exists.
    pub dependencies_is_dir: bool,
    /// Whether the `src/` directory exists.
    pub src_is_dir: bool,
}

/// The first integrity failure of a package directory, if any, in the
/// order the checks run: entrypoint, setup script, uninstall script,
/// dependencies directory, src directory.
pub open spec fn first_integrity_failure(facts: PackageDirFacts) -> Option<IntegrityPart> {
    if !facts.entrypoint_is_file {
        Some(IntegrityPart::Entrypoint)
    } else if !facts.setup_script_is_file {
        Some(IntegrityPart::SetupScript)
    } else if !facts.uninstall_script_is_file {
        Some(IntegrityPart::UninstallScript)
    } else if !facts.dependencies_is_dir {
        Some(IntegrityPart::DependenciesFolder)
    } else if !facts.src_is_dir {
        Some(IntegrityPart::SrcFolder)
    } else {
        None
    }
}

/// Check the well-formedness of a package directory from the observed
/// facts: the manifest's entrypoint, setup script and uninstall script
/// must exist as files, and the `dependencies/` and `src/` directories
/// must exist.
pub fn verify_package_integrity(facts: &PackageDirFacts) -> (r: Result<(), SpmError>)
    ensures
        match r {
            Ok(()) => first_integrity_failure(*facts) is None,
            Err(e) => first_integrity_failure(*facts) matches Some(part) && e
                == SpmError::BrokenPackage(part),
        },
{
    if !facts.entrypoint_is_file {
        Err(SpmError::BrokenPackage(IntegrityPart::Entrypoint))
    } else if !facts.setup_script_is_file {
        Err(SpmError::BrokenPackage(IntegrityPart::SetupScript))
    } else if !facts.uninstall_script_is_file {
        Err(SpmError::BrokenPackage(IntegrityPart::UninstallScript))
    } else if !facts.dependencies_is_dir {
        Err(SpmError::BrokenPackage(IntegrityPart::DependenciesFolder))
    } else if !facts.src_is_dir {
        Err(SpmError::BrokenPackage(IntegrityPart::SrcFolder))
    } else {
        Ok(())
    }
}

} // verus!
