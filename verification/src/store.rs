//! The installed-package store: the metadata projection of a scanned
//! package, the registry model the manager works on, name resolution and
//! ranked keyword search, and the install/uninstall transitions.
//!
//! The manager holds the scanned state of the store; the surrounding
//! binary walks the installation root, feeds every found package in, and
//! carries out the returned plans on disk.

use vstd::prelude::*;

use crate::errors::SpmError;
use crate::manifest::Package;
use crate::manifest::PkgModel;
use crate::scaffold::create_package_structure;
use crate::scaffold::ScaffoldPlan;
use crate::strutil::has_char;
use crate::strutil::split_chars;
use crate::strutil::split_str;
use crate::strutil::str_eq;
use crate::strutil::views_of;

verus! {

/// The ghost shape of one store entry: the manifest and the paths the
/// scan derived for it.
pub struct MetaModel {
    /// The manifest of the package.
    pub pkg: PkgModel,
    /// The package directory.
    pub path: Seq<char>,
    /// The entrypoint file inside the package directory.
    pub entrypoint_path: Seq<char>,
    /// The setup script inside the package directory.
    pub setup_path: Seq<char>,
    /// The uninstall script inside the package directory.
    pub uninstall_path: Seq<char>,
}

/// The store entry a package at a directory yields: each path is the
/// directory joined with the file the manifest names.
pub open spec fn meta_of(path: Seq<char>, m: PkgModel) -> MetaModel {
    MetaModel {
        pkg: m,
        path: path,
        entrypoint_path: path + "/"@ + m.entrypoint,
        setup_path: path + "/"@ + m.setup_script,
        uninstall_path: path + "/"@ + m.uninstall,
    }
}

/// A scanned package: its manifest together with the absolute paths to
/// its directory and scripts.
#[derive(Debug)]
pub struct PackageMetadata {
    /// The manifest read from the package directory.
    pub package_json_content: Package,
    /// The package directory.
    pub path_to_package: String,
    /// The entrypoint file.
    pub path_to_entrypoint: String,
    /// The setup script.
    pub path_to_setup_script: String,
    /// The uninstall script.
    pub path_to_uninstall_script: String,
}

/// The ghost shape of a metadata value.
pub open spec fn meta_model(m: PackageMetadata) -> MetaModel {
    MetaModel {
        pkg: m.package_json_content.model(),
        path: m.path_to_package@,
        entrypoint_path: m.path_to_entrypoint@,
        setup_path: m.path_to_setup_script@,
        uninstall_path: m.path_to_uninstall_script@,
    }
}

impl Clone for PackageMetadata {
    /// Copies every field; the ghost shape is unchanged.
    fn clone(&self) -> (res: Self)
        ensures
            meta_model(res) == meta_model(*self),
    {
        let res = PackageMetadata {
            package_json_content: self.package_json_content.clone(),
            path_to_package: self.path_to_package.clone(),
            path_to_entrypoint: self.path_to_entrypoint.clone(),
            path_to_setup_script: self.path_to_setup_script.clone(),
            path_to_uninstall_script: self.path_to_uninstall_script.clone(),
        };
        proof {
            assert(meta_model(res) == meta_model(*self));
        }
        res
    }
}

impl PackageMetadata {
    /// Build the metadata of a package found at a directory.
    pub fn from_parts(path_to_package: String, package: Package) -> (r: PackageMetadata)
        ensures
            meta_model(r) == meta_of(path_to_package@, package.model()),
    {
        let path_to_entrypoint = join_path(path_to_package.as_str(), package.entrypoint.as_str());
        let path_to_setup_script = join_path(
            path_to_package.as_str(),
            package.install.setup_script.as_str(),
        );
        let path_to_uninstall_script = join_path(
            path_to_package.as_str(),
            package.uninstall.as_str(),
        );
        PackageMetadata {
            package_json_content: package,
            path_to_package,
            path_to_entrypoint,
            path_to_setup_script,
            path_to_uninstall_script,
        }
    }

    /// The package name.
    pub fn get_package_name(&self) -> (r: &str)
        ensures
            r@ == meta_model(*self).pkg.name,
    {
        self.package_json_content.name.as_str()
    }

    /// The package name, under the spelling the store has always used.
    pub fn get_pacakge_name(&self) -> (r: &str)
        ensures
            r@ == meta_model(*self).pkg.name,
    {
        self.get_package_name()
    }

    /// The package description.
    pub fn get_description(&self) -> (r: &str)
        ensures
            r@ == meta_model(*self).pkg.description,
    {
        self.package_json_content.description.as_str()
    }

    /// The package version.
    pub fn get_version(&self) -> (r: &str)
        ensures
            r@ == meta_model(*self).pkg.version,
    {
        self.package_json_content.version.as_str()
    }

    /// The path to the entrypoint file.
    pub fn get_main_entry_point(&self) -> (r: &str)
        ensures
            r@ == meta_model(*self).entrypoint_path,
    {
        self.path_to_entrypoint.as_str()
    }

    /// The namespace, if the package has one.
    pub fn get_namespace(&self) -> (r: Option<&String>)
        ensures
            match r {
                Some(ns) => meta_model(*self).pkg.namespace == Some(ns@),
                None => meta_model(*self).pkg.namespace is None,
            },
    {
        self.package_json_content.namespace.as_ref()
    }

    /// The full name: `namespace/name` when a namespace is present.
    pub fn get_full_name(&self) -> (r: String)
        ensures
            r@ == Package::spec_full_name(meta_model(*self).pkg),
    {
        self.package_json_content.get_full_name()
    }
}

/// Join a directory and a file name with a slash.
fn join_path(dir: &str, name: &str) -> (r: String)
    ensures
        r@ == dir@ + "/"@ + name@,
{
    let mut r = dir.to_owned();
    r.append("/");
    r.append(name);
    r
}

/// The first entry whose namespace and name match exactly, if any.
pub open spec fn find_qual(metas: Seq<MetaModel>, ns: Seq<char>, name: Seq<char>) -> Option<int>
    decreases metas.len(),
{
    if metas.len() == 0 {
        None
    } else if metas[0].pkg.namespace == Some(ns) && metas[0].pkg.name == name {
        Some(0)
    } else {
        match find_qual(metas.skip(1), ns, name) {
            Some(i) => Some(i + 1),
            None => None,
        }
    }
}

/// The first entry with the given bare name, in any namespace, if any.
pub open spec fn find_named(metas: Seq<MetaModel>, name: Seq<char>) -> Option<int>
    decreases metas.len(),
{
    if metas.len() == 0 {
        None
    } else if metas[0].pkg.name == name {
        Some(0)
    } else {
        match find_named(metas.skip(1), name) {
            Some(i) => Some(i + 1),
            None => None,
        }
    }
}

/// A found index is in range, matches, and is the first match.
pub proof fn lemma_find_qual_props(metas: Seq<MetaModel>, ns: Seq<char>, name: Seq<char>)
    ensures
        match find_qual(metas, ns, name) {
            Some(i) => 0 <= i < metas.len() && metas[i].pkg.namespace == Some(ns)
                && metas[i].pkg.name == name,
            None => forall|j: int|
                0 <= j < metas.len() ==> !(#[trigger] metas[j].pkg.namespace == Some(ns)
                    && metas[j].pkg.name == name),
        },
    decreases metas.len(),
{
    if metas.len() != 0 {
        lemma_find_qual_props(metas.skip(1), ns, name);
        assert(forall|j: int| 1 <= j < metas.len() ==> metas[j] == metas.skip(1)[j - 1]);
    }
}

/// A found index is in range, matches, and is the first match.
pub proof fn lemma_find_named_props(metas: Seq<MetaModel>, name: Seq<char>)
    ensures
        match find_named(metas, name) {
            Some(i) => 0 <= i < metas.len() && metas[i].pkg.name == name,
            None => forall|j: int| 0 <= j < metas.len() ==> #[trigger] metas[j].pkg.name != name,
        },
    decreases metas.len(),
{
    if metas.len() != 0 {
        lemma_find_named_props(metas.skip(1), name);
        assert(forall|j: int| 1 <= j < metas.len() ==> metas[j] == metas.skip(1)[j - 1]);
    }
}

/// How a query resolves against the store: a `namespace/name` query needs
/// exactly two segments and an exact match; a bare name returns the first
/// package with that name in scan order.
pub open spec fn resolve_package(metas: Seq<MetaModel>, query: Seq<char>) -> Option<int> {
    if has_char(query, '/') {
        let parts = split_chars(query, '/');
        if parts.len() == 2 {
            find_qual(metas, parts[0], parts[1])
        } else {
            None
        }
    } else {
        find_named(metas, query)
    }
}

/// What installing a package at a destination does to the store: any
/// entry already at that directory is dropped and the new entry is
/// appended.
pub open spec fn spec_install(metas: Seq<MetaModel>, meta: MetaModel) -> Seq<MetaModel> {
    metas.filter(|x: MetaModel| x.path != meta.path).push(meta)
}

/// The destination directory of an installation: the packages directory,
/// then the namespace when there is one, then the source directory name.
pub open spec fn spec_install_destination(
    root: Seq<char>,
    namespace: Option<Seq<char>>,
    dir_name: Seq<char>,
) -> Seq<char> {
    match namespace {
        Some(ns) => root + "/packages"@ + "/"@ + ns + "/"@ + dir_name,
        None => root + "/packages"@ + "/"@ + dir_name,
    }
}

/// What carrying out an installation on disk requires.
#[derive(Debug)]
pub struct InstallPlan {
    /// The directory the package is copied or moved to.
    pub destination: String,
    /// Whether the source is moved rather than copied.
    pub is_move: bool,
    /// The setup script to execute once the files are in place, from its
    /// own directory; if it is missing the installation fails.
    pub setup_script_path: String,
}

/// What carrying out an uninstallation on disk requires.
#[derive(Debug)]
pub struct UninstallPlan {
    /// The directory to delete once the uninstall script has run.
    pub package_path: String,
    /// The uninstall script to execute first, from its own directory; if
    /// it is missing nothing is deleted.
    pub uninstall_script_path: String,
}

/// The installed-package registry over a fixed root directory.  The
/// scanned state of the store is recorded here; operations mutate it in
/// step with the plans they return.
#[derive(Debug)]
pub struct PackageManager {
    /// The root directory of the manager, typically `~/.spm`.
    pub root_directory: String,
    /// Whether the packages directory under the root exists.
    pub store_present: bool,
    /// The scanned packages, in scan order.
    pub packages: Vec<PackageMetadata>,
}

impl PackageManager {
    /// The ghost shape of the scanned store.
    pub open spec fn models(&self) -> Seq<MetaModel> {
        self.packages@.map_values(|m: PackageMetadata| meta_model(m))
    }

    /// A manager over the given root, with nothing scanned yet.
    pub fn new(root_directory: String) -> (r: PackageManager)
        ensures
            r.root_directory == root_directory,
            !r.store_present,
            r.models() =~= Seq::<MetaModel>::empty(),
    {
        PackageManager { root_directory, store_present: false, packages: Vec::new() }
    }

    /// The directory PATH-exposed executables live in.
    pub fn get_bin_directory(&self) -> (r: String)
        ensures
            r@ == self.root_directory@ + "/bin"@,
    {
        let mut r = self.root_directory.clone();
        r.append("/bin");
        proof {
            reveal_strlit("/bin");
        }
        r
    }

    /// The directory installed packages live in.
    pub fn access_package_installation_directory(&self) -> (r: String)
        ensures
            r@ == self.root_directory@ + "/packages"@,
    {
        let mut r = self.root_directory.clone();
        r.append("/packages");
        proof {
            reveal_strlit("/packages");
        }
        r
    }

    /// Record that the packages directory exists (or does not).
    pub fn mark_store_present(&mut self, present: bool)
        ensures
            final(self).root_directory == old(self).root_directory,
            final(self).store_present == present,
            final(self).models() == old(self).models(),
    {
        self.store_present = present;
    }

    /// Record one scanned package, in scan order.
    pub fn record_scanned_package(&mut self, meta: PackageMetadata)
        ensures
            final(self).root_directory == old(self).root_directory,
            final(self).store_present == old(self).store_present,
            final(self).models() =~= old(self).models().push(meta_model(meta)),
    {
        self.packages.push(meta);
    }

    /// Every scanned package.  Fails when the packages directory does not
    /// exist.
    pub fn get_installed_packages(&self) -> (r: Result<Vec<PackageMetadata>, SpmError>)
        ensures
            match r {
                Ok(list) => self.store_present && list@.map_values(
                    |m: PackageMetadata| meta_model(m),
                ) =~= self.models(),
                Err(e) => !self.store_present && e == SpmError::StoreMissing,
            },
    {
        if !self.store_present {
            return Err(SpmError::StoreMissing);
        }
        let mut list: Vec<PackageMetadata> = Vec::new();
        let mut i: usize = 0;
        while i < self.packages.len()
            invariant
                0 <= i <= self.packages@.len(),
                list@.map_values(|m: PackageMetadata| meta_model(m)) =~= self.models().take(
                    i as int,
                ),
            decreases self.packages@.len() - i,
        {
            list.push(self.packages[i].clone());
            proof {
                let f = |m: PackageMetadata| meta_model(m);
                assert(list@.map_values(f) =~= list@.drop_last().map_values(f).push(
                    meta_model(list@.last()),
                ));
                assert(self.models().take(i + 1) =~= self.models().take(i as int).push(
                    self.models()[i as int],
                ));
            }
            i += 1;
        }
        proof {
            assert(self.models().take(self.models().len() as int) =~= self.models());
        }
        Ok(list)
    }

    /// The index the query resolves to, under the documented resolution
    /// rule.
    fn resolve_index(&self, package_name: &str) -> (r: Result<usize, SpmError>)
        ensures
            match r {
                Ok(i) => self.store_present && resolve_package(self.models(), package_name@)
                    == Some(i as int) && i < self.models().len(),
                Err(e) => if !self.store_present {
                    e == SpmError::StoreMissing
                } else {
                    resolve_package(self.models(), package_name@) is None && e
                        == SpmError::PackageNotFound
                },
            },
    {
        if !self.store_present {
            return Err(SpmError::StoreMissing);
        }
        let ghost metas = self.models();
        if crate::strutil::contains_char(package_name, '/') {
            let parts = split_str(package_name, '/');
            if parts.len() != 2 {
                return Err(SpmError::PackageNotFound);
            }
            let ns = &parts[0];
            let name = &parts[1];
            proof {
                let vs = views_of(parts@);
                assert(vs[0] == parts@[0]@);
                assert(vs[1] == parts@[1]@);
                lemma_find_qual_props(metas, ns@, name@);
            }
            let mut i: usize = 0;
            while i < self.packages.len()
                invariant
                    0 <= i <= self.packages@.len(),
                    metas == self.models(),
                    metas.len() == self.packages@.len(),
                    self.store_present,
                    has_char(package_name@, '/'),
                    split_chars(package_name@, '/').len() == 2,
                    ns@ == split_chars(package_name@, '/')[0],
                    name@ == split_chars(package_name@, '/')[1],
                    forall|j: int|
                        0 <= j < i ==> !(#[trigger] metas[j].pkg.namespace == Some(ns@)
                            && metas[j].pkg.name == name@),
                decreases self.packages@.len() - i,
            {
                let p = &self.packages[i];
                let ns_matches = match &p.package_json_content.namespace {
                    Some(pns) => str_eq(pns.as_str(), ns.as_str()),
                    None => false,
                };
                if ns_matches && str_eq(p.package_json_content.name.as_str(), name.as_str()) {
                    proof {
                        assert(metas[i as int].pkg.namespace == Some(ns@));
                        assert(metas[i as int].pkg.name == name@);
                        lemma_find_first_qual(metas, ns@, name@, i as int);
                    }
                    return Ok(i);
                }
                i += 1;
            }
            proof {
                lemma_find_qual_props(metas, ns@, name@);
                match find_qual(metas, ns@, name@) {
                    Some(k) => {
                        assert(!(metas[k].pkg.namespace == Some(ns@) && metas[k].pkg.name
                            == name@));
                    },
                    None => {},
                }
            }
            return Err(SpmError::PackageNotFound);
        }
        let mut i: usize = 0;
        while i < self.packages.len()
            invariant
                0 <= i <= self.packages@.len(),
                metas == self.models(),
                metas.len() == self.packages@.len(),
                self.store_present,
                !has_char(package_name@, '/'),
                forall|j: int| 0 <= j < i ==> #[trigger] metas[j].pkg.name != package_name@,
            decreases self.packages@.len() - i,
        {
            let p = &self.packages[i];
            if str_eq(p.package_json_content.name.as_str(), package_name) {
                proof {
                    assert(metas[i as int].pkg.name == package_name@);
                    lemma_find_first_named(metas, package_name@, i as int);
                }
                return Ok(i);
            }
            i += 1;
        }
        proof {
            lemma_find_named_props(metas, package_name@);
            match find_named(metas, package_name@) {
                Some(k) => {
                    assert(metas[k].pkg.name != package_name@);
                },
                None => {},
            }
        }
        Err(SpmError::PackageNotFound)
    }

    /// Retrieve a scanned package by name.  A `namespace/name` query must
    /// match exactly; a bare name returns the first package with that
    /// name in scan order, also when several namespaces hold one.
    pub fn get_package_by_name(&self, package_name: String) -> (r: Result<
        PackageMetadata,
        SpmError,
    >)
        ensures
            match r {
                Ok(p) => self.store_present && (resolve_package(self.models(), package_name@)
                    matches Some(i) && meta_model(p) == self.models()[i]),
                Err(e) => if !self.store_present {
                    e == SpmError::StoreMissing
                } else {
                    resolve_package(self.models(), package_name@) is None && e
                        == SpmError::PackageNotFound
                },
            },
    {
        let i = match self.resolve_index(package_name.as_str()) {
            Ok(i) => i,
            Err(e) => {
                return Err(e);
            },
        };
        Ok(self.packages[i].clone())
    }

    /// Plan the scaffold of a new package at a directory: the `src/` tree
    /// with the include helper, the entrypoint, the manifest document,
    /// the setup and uninstall scripts, and the `dependencies/` directory.
    pub fn create_package(&self, path_to_package: &str, package: &Package, path_is_dir: bool) -> (r:
        Result<ScaffoldPlan, SpmError>)
        ensures
            match r {
                Ok(plan) => path_is_dir && plan.dirs@.len() == 3 && plan.dirs@[0]@
                    == path_to_package@ + "/src"@ && plan.dirs@[1]@ == path_to_package@
                    + "/src/std"@ && plan.dirs@[2]@ == path_to_package@ + "/dependencies"@
                    && plan.files@.len() == 5 && plan.files@[0].path@ == path_to_package@ + "/"@
                    + package.entrypoint@ && plan.files@[0].contents@
                    == crate::scaffold::spec_entrypoint_content(package) && plan.files@[0].executable
                    && plan.files@[1].path@ == path_to_package@ + "/package.json"@
                    && plan.files@[1].contents@ == crate::codec::spec_write(package.model())
                    && !plan.files@[1].executable && plan.files@[2].path@ == path_to_package@ + "/"@
                    + package.install.setup_script@ && plan.files@[2].contents@
                    == crate::shell::shell_shebang(package.interpreter)
                    + crate::scaffold::setup_script_body() && plan.files@[2].executable
                    && plan.files@[3].path@ == path_to_package@ + "/"@ + package.uninstall@
                    && plan.files@[3].contents@ == crate::shell::shell_shebang(package.interpreter)
                    + crate::scaffold::uninstall_script_body() && plan.files@[3].executable
                    && plan.files@[4].path@ == path_to_package@ + "/src/std/include.sh"@
                    && plan.files@[4].contents@ == crate::shell::shell_shebang(package.interpreter)
                    + crate::scaffold::include_script_body() && plan.files@[4].executable,
                Err(e) => !path_is_dir && e == SpmError::NotADirectory,
            },
    {
        create_package_structure(path_to_package, package, path_is_dir)
    }

    /// Install a package into the store: decide the destination, refuse
    /// an occupied destination unless forced, and record the new entry in
    /// place of any entry at that directory.  The caller copies or moves
    /// the files as the plan says and then runs the setup script, failing
    /// if it is missing.
    pub fn install_package(
        &mut self,
        source: &Package,
        source_dir_name: &str,
        destination_occupied: bool,
        is_move: bool,
        force: bool,
    ) -> (r: Result<InstallPlan, SpmError>)
        ensures
            match r {
                Ok(plan) => !(destination_occupied && !force) && plan.destination@
                    == spec_install_destination(
                    old(self).root_directory@,
                    source.model().namespace,
                    source_dir_name@,
                ) && plan.is_move == is_move && plan.setup_script_path@ == plan.destination@ + "/"@
                    + source.model().setup_script && final(self).models() == spec_install(
                    old(self).models(),
                    meta_of(plan.destination@, source.model()),
                ) && final(self).root_directory == old(self).root_directory
                    && final(self).store_present == old(self).store_present,
                Err(e) => destination_occupied && !force && e == SpmError::AlreadyInstalled
                    && *final(self) == *old(self),
            },
    {
        if destination_occupied && !force {
            return Err(SpmError::AlreadyInstalled);
        }
        let mut destination = self.access_package_installation_directory();
        match &source.namespace {
            Some(ns) => {
                destination.append("/");
                destination.append(ns.as_str());
            },
            None => {},
        }
        destination.append("/");
        destination.append(source_dir_name);
        let setup_script_path = join_path(destination.as_str(), source.install.setup_script.as_str());
        let meta = PackageMetadata::from_parts(destination.clone(), source.clone());
        let ghost target = meta_model(meta);
        let ghost olds = self.models();
        let mut kept: Vec<PackageMetadata> = Vec::new();
        let mut i: usize = 0;
        let ghost pred = |x: MetaModel| x.path != target.path;
        proof {
            reveal(Seq::filter);
            assert(olds.take(0).filter(pred) =~= Seq::<MetaModel>::empty());
            assert(kept@.map_values(|m: PackageMetadata| meta_model(m)) =~= Seq::<
                MetaModel,
            >::empty());
        }
        while i < self.packages.len()
            invariant
                0 <= i <= self.packages@.len(),
                olds == self.models(),
                olds.len() == self.packages@.len(),
                pred == (|x: MetaModel| x.path != target.path),
                target == meta_model(meta),
                kept@.map_values(|m: PackageMetadata| meta_model(m)) =~= olds.take(
                    i as int,
                ).filter(pred),
            decreases self.packages@.len() - i,
        {
            let p = &self.packages[i];
            let keep = !str_eq(p.path_to_package.as_str(), meta.path_to_package.as_str());
            proof {
                reveal(Seq::filter);
                assert(olds.take(i + 1).drop_last() =~= olds.take(i as int));
                assert(olds.take(i + 1).last() == olds[i as int]);
                assert(olds[i as int] == meta_model(self.packages@[i as int]));
                assert(keep == pred(olds[i as int]));
            }
            if keep {
                kept.push(p.clone());
                proof {
                    let f = |m: PackageMetadata| meta_model(m);
                    assert(kept@.map_values(f) =~= kept@.drop_last().map_values(f).push(
                        meta_model(kept@.last()),
                    ));
                }
            }
            i += 1;
        }
        proof {
            assert(olds.take(olds.len() as int) =~= olds);
        }
        kept.push(meta);
        self.packages = kept;
        proof {
            let f = |m: PackageMetadata| meta_model(m);
            assert(self.models() =~= self.packages@.drop_last().map_values(f).push(
                meta_model(self.packages@.last()),
            ));
            assert(self.models() =~= spec_install(olds, target));
        }
        Ok(InstallPlan { destination, is_move, setup_script_path })
    }

    /// Confirm an installation once the files are in place: a package
    /// whose declared setup script is not present is a hard error, never
    /// a silent skip.  The caller probes the plan's setup script path and
    /// reports the outcome; on failure the copied files stay where they
    /// are, as does the store entry, which describes the disk.
    pub fn finish_install(&self, setup_script_present: bool) -> (r: Result<(), SpmError>)
        ensures
            match r {
                Ok(()) => setup_script_present,
                Err(e) => !setup_script_present && e == SpmError::SetupScriptMissing,
            },
    {
        if setup_script_present {
            Ok(())
        } else {
            Err(SpmError::SetupScriptMissing)
        }
    }

    /// Uninstall a package by name: resolve it, hand back the teardown
    /// plan, and drop the entry from the store.  The caller first learns
    /// the package's uninstall script path (through
    /// [`PackageManager::get_package_by_name`]), probes it, and reports
    /// the outcome: a missing uninstall script fails the uninstallation
    /// and nothing is deleted — the entry stays in the store.  On
    /// success the caller runs the script and then deletes the package
    /// directory.
    pub fn uninstall_package_by_name(
        &mut self,
        package_name: String,
        uninstall_script_present: bool,
    ) -> (r: Result<UninstallPlan, SpmError>)
        ensures
            match r {
                Ok(plan) => old(self).store_present && uninstall_script_present && (
                resolve_package(old(self).models(), package_name@) matches Some(i)
                    && plan.package_path@ == old(self).models()[i].path
                    && plan.uninstall_script_path@ == old(self).models()[i].uninstall_path
                    && final(self).models() == old(self).models().remove(i))
                    && final(self).root_directory == old(self).root_directory
                    && final(self).store_present == old(self).store_present,
                Err(e) => *final(self) == *old(self) && (if !old(self).store_present {
                    e == SpmError::StoreMissing
                } else if resolve_package(old(self).models(), package_name@) is None {
                    e == SpmError::PackageNotFound
                } else {
                    !uninstall_script_present && e == SpmError::UninstallScriptMissing
                }),
            },
    {
        let i = match self.resolve_index(package_name.as_str()) {
            Ok(i) => i,
            Err(e) => {
                return Err(e);
            },
        };
        if !uninstall_script_present {
            return Err(SpmError::UninstallScriptMissing);
        }
        let meta = self.packages.remove(i);
        proof {
            assert(self.models() =~= old(self).models().remove(i as int));
        }
        Ok(UninstallPlan {
            package_path: meta.path_to_package,
            uninstall_script_path: meta.path_to_uninstall_script,
        })
    }
}

/// If position `i` matches a qualified query and nothing before it does,
/// the search finds exactly `i`.
proof fn lemma_find_first_qual(metas: Seq<MetaModel>, ns: Seq<char>, name: Seq<char>, i: int)
    requires
        0 <= i < metas.len(),
        metas[i].pkg.namespace == Some(ns),
        metas[i].pkg.name == name,
        forall|j: int|
            0 <= j < i ==> !(#[trigger] metas[j].pkg.namespace == Some(ns) && metas[j].pkg.name
                == name),
    ensures
        find_qual(metas, ns, name) == Some(i),
    decreases metas.len(),
{
    if i == 0 {
    } else {
        assert(forall|j: int| 0 <= j < metas.skip(1).len() ==> metas.skip(1)[j] == metas[j + 1]);
        lemma_find_first_qual(metas.skip(1), ns, name, i - 1);
    }
}

/// If position `i` holds the bare name and nothing before it does, the
/// search finds exactly `i`.
proof fn lemma_find_first_named(metas: Seq<MetaModel>, name: Seq<char>, i: int)
    requires
        0 <= i < metas.len(),
        metas[i].pkg.name == name,
        forall|j: int| 0 <= j < i ==> #[trigger] metas[j].pkg.name != name,
    ensures
        find_named(metas, name) == Some(i),
    decreases metas.len(),
{
    if i == 0 {
    } else {
        assert(forall|j: int| 0 <= j < metas.skip(1).len() ==> metas.skip(1)[j] == metas[j + 1]);
        lemma_find_first_named(metas.skip(1), name, i - 1);
    }
}

/// The hyphen-separated words of a package's normalized name.
pub open spec fn name_words(m: MetaModel) -> Seq<Seq<char>> {
    split_chars(crate::strutil::normal_name(m.pkg.name), '-')
}

/// The hyphen-separated words of a package's normalized namespace, empty
/// when the package has none.
pub open spec fn namespace_words(m: MetaModel) -> Seq<Seq<char>> {
    match m.pkg.namespace {
        Some(ns) => split_chars(crate::strutil::normal_name(ns), '-'),
        None => Seq::<Seq<char>>::empty(),
    }
}

/// One point for every non-empty keyword found among the name words, and
/// one more for every one found among the namespace words.
pub open spec fn word_score(words: Seq<Seq<char>>, pw: Seq<Seq<char>>, nw: Seq<Seq<char>>) -> nat
    decreases words.len(),
{
    if words.len() == 0 {
        0
    } else {
        (if words[0].len() > 0 && pw.contains(words[0]) {
            1nat
        } else {
            0nat
        }) + (if words[0].len() > 0 && nw.contains(words[0]) {
            1nat
        } else {
            0nat
        }) + word_score(words.skip(1), pw, nw)
    }
}

/// The match score of a package against a search text: an exact match of
/// the raw name or full name scores 2, an exact match of the normalized
/// name scores 1, and otherwise every keyword found among the name or
/// namespace words scores a point each.
pub open spec fn pkg_score(m: MetaModel, kw: Seq<char>) -> nat {
    if m.pkg.name == kw || Package::spec_full_name(m.pkg) == kw {
        2
    } else if crate::strutil::normal_name(m.pkg.name) == kw {
        1
    } else {
        word_score(crate::strutil::split_words(kw), name_words(m), namespace_words(m))
    }
}

/// Whether a package scores exactly `s` against the search text.
pub open spec fn score_pred(kw: Seq<char>, s: nat) -> spec_fn(MetaModel) -> bool {
    |m: MetaModel| pkg_score(m, kw) == s
}

/// The packages scoring exactly `s` down to 1, bucket by bucket: within a
/// bucket the scan order is kept, so equal scores tie by encounter order.
pub open spec fn ranked_from(metas: Seq<MetaModel>, kw: Seq<char>, s: nat) -> Seq<MetaModel>
    decreases s,
{
    if s == 0 {
        Seq::<MetaModel>::empty()
    } else {
        metas.filter(score_pred(kw, s)) + ranked_from(metas, kw, (s - 1) as nat)
    }
}

/// The ranked result of a keyword search: every package with a positive
/// score, by descending score, ties in scan order.
pub open spec fn spec_keyword_search(metas: Seq<MetaModel>, kw: Seq<char>) -> Seq<MetaModel> {
    ranked_from(metas, kw, (2 * crate::strutil::split_words(kw).len() + 2) as nat)
}

/// A split yields at most one piece more than the text has characters.
proof fn lemma_split_len(s: Seq<char>, sep: char)
    ensures
        split_chars(s, sep).len() <= s.len() + 1,
    decreases s.len(),
{
    if s.len() != 0 {
        lemma_split_len(s.skip(1), sep);
    }
}

/// The word score is bounded by two points per keyword.
proof fn lemma_word_score_bound(words: Seq<Seq<char>>, pw: Seq<Seq<char>>, nw: Seq<Seq<char>>)
    ensures
        word_score(words, pw, nw) <= 2 * words.len(),
    decreases words.len(),
{
    if words.len() != 0 {
        lemma_word_score_bound(words.skip(1), pw, nw);
    }
}

/// An empty store ranks to an empty result.
proof fn lemma_ranked_empty(kw: Seq<char>, s: nat)
    ensures
        ranked_from(Seq::<MetaModel>::empty(), kw, s) =~= Seq::<MetaModel>::empty(),
    decreases s,
{
    reveal(Seq::filter);
    if s != 0 {
        lemma_ranked_empty(kw, (s - 1) as nat);
    }
}

/// Whether the vector holds a string with the given characters.
fn vec_contains_str(v: &Vec<String>, w: &str) -> (r: bool)
    ensures
        r == views_of(v@).contains(w@),
{
    let mut i: usize = 0;
    while i < v.len()
        invariant
            0 <= i <= v@.len(),
            forall|j: int| 0 <= j < i ==> views_of(v@)[j] != w@,
        decreases v@.len() - i,
    {
        if str_eq(v[i].as_str(), w) {
            proof {
                assert(views_of(v@)[i as int] == w@);
            }
            return true;
        }
        i += 1;
    }
    proof {
        if views_of(v@).contains(w@) {
            let j = choose|j: int| 0 <= j < views_of(v@).len() && views_of(v@)[j] == w@;
            assert(views_of(v@)[j] != w@);
        }
    }
    false
}

/// Compute the match score of one scanned package.
fn score_of(m: &PackageMetadata, keywords: &str, words: &Vec<String>) -> (r: usize)
    requires
        views_of(words@) == crate::strutil::split_words(keywords@),
        words@.len() * 2 + 2 < usize::MAX,
    ensures
        r == pkg_score(meta_model(*m), keywords@),
        r <= 2 * words@.len() + 2,
{
    let ghost model = meta_model(*m);
    proof {
        lemma_word_score_bound(crate::strutil::split_words(keywords@), name_words(model), namespace_words(model));
    }
    let name = m.package_json_content.name.as_str();
    let full = m.get_full_name();
    if str_eq(name, keywords) || str_eq(full.as_str(), keywords) {
        return 2;
    }
    let norm = crate::strutil::normalize_chars(name);
    if str_eq(norm.as_str(), keywords) {
        return 1;
    }
    let pw = split_str(norm.as_str(), '-');
    let nw: Vec<String> = match &m.package_json_content.namespace {
        Some(ns) => {
            let nsn = crate::strutil::normalize_chars(ns.as_str());
            split_str(nsn.as_str(), '-')
        },
        None => Vec::new(),
    };
    proof {
        assert(views_of(pw@) == name_words(model));
        assert(views_of(nw@) =~= namespace_words(model));
    }
    let ghost ws = crate::strutil::split_words(keywords@);
    let mut score: usize = 0;
    let mut j: usize = 0;
    proof {
        assert(ws.skip(0) =~= ws);
    }
    while j < words.len()
        invariant
            0 <= j <= words@.len(),
            words@.len() * 2 + 2 < usize::MAX,
            ws == crate::strutil::split_words(keywords@),
            ws == views_of(words@),
            ws.len() == words@.len(),
            views_of(pw@) == name_words(model),
            views_of(nw@) == namespace_words(model),
            score <= 2 * j,
            word_score(ws, views_of(pw@), views_of(nw@)) == score + word_score(
                ws.skip(j as int),
                views_of(pw@),
                views_of(nw@),
            ),
        decreases words@.len() - j,
    {
        let w = &words[j];
        proof {
            assert(ws.skip(j as int)[0] == ws[j as int]);
            assert(ws[j as int] == words@[j as int]@);
            assert(ws.skip(j as int).skip(1) =~= ws.skip(j + 1));
        }
        if w.as_str().unicode_len() > 0 {
            if vec_contains_str(&pw, w.as_str()) {
                score += 1;
            }
            if vec_contains_str(&nw, w.as_str()) {
                score += 1;
            }
        }
        j += 1;
    }
    proof {
        assert(ws.skip(ws.len() as int).len() == 0);
    }
    score
}

impl PackageManager {
    /// Search the store by comma-separated keywords: the result holds
    /// every package with a positive match score, by descending score,
    /// ties in scan order.  A missing packages directory yields an empty
    /// result rather than an error.
    #[verifier::rlimit(60)]
    pub fn keyword_search(&self, keywords: &str) -> (r: Result<Vec<PackageMetadata>, SpmError>)
        requires
            keywords@.len() * 2 + 8 < usize::MAX,
        ensures
            r matches Ok(list) && list@.map_values(|m: PackageMetadata| meta_model(m))
                =~= spec_keyword_search(
                if self.store_present {
                    self.models()
                } else {
                    Seq::<MetaModel>::empty()
                },
                keywords@,
            ),
    {
        let ghost kw = keywords@;
        if !self.store_present {
            proof {
                lemma_ranked_empty(kw, (2 * crate::strutil::split_words(kw).len() + 2) as nat);
            }
            return Ok(Vec::new());
        }
        let ghost metas = self.models();
        let words = crate::strutil::split_keywords(keywords);
        proof {
            lemma_split_len(kw, ',');
            assert(words@.len() <= kw.len() + 1);
        }
        let maxs: usize = 2 * words.len() + 2;
        let mut results: Vec<PackageMetadata> = Vec::new();
        let mut sc: usize = maxs;
        proof {
            assert(results@.map_values(|m: PackageMetadata| meta_model(m)) =~= Seq::<
                MetaModel,
            >::empty());
        }
        while sc >= 1
            invariant
                0 <= sc <= maxs,
                metas == self.models(),
                metas.len() == self.packages@.len(),
                views_of(words@) == crate::strutil::split_words(kw),
                maxs == 2 * words@.len() + 2,
                keywords@ == kw,
                words@.len() * 2 + 2 < usize::MAX,
                ranked_from(metas, kw, maxs as nat) =~= results@.map_values(
                    |m: PackageMetadata| meta_model(m),
                ) + ranked_from(metas, kw, sc as nat),
            decreases sc,
        {
            let ghost base = results@.map_values(|m: PackageMetadata| meta_model(m));
            let mut j: usize = 0;
            proof {
                reveal(Seq::filter);
                assert(metas.take(0).filter(score_pred(kw, sc as nat)) =~= Seq::<
                    MetaModel,
                >::empty());
                assert(base + Seq::<MetaModel>::empty() =~= base);
            }
            while j < self.packages.len()
                invariant
                    0 <= j <= self.packages@.len(),
                    1 <= sc <= maxs,
                    metas == self.models(),
                    metas.len() == self.packages@.len(),
                    views_of(words@) == crate::strutil::split_words(kw),
                    maxs == 2 * words@.len() + 2,
                    keywords@ == kw,
                    words@.len() * 2 + 2 < usize::MAX,
                    ranked_from(metas, kw, maxs as nat) =~= base + ranked_from(
                        metas,
                        kw,
                        sc as nat,
                    ),
                    results@.map_values(|m: PackageMetadata| meta_model(m)) =~= base + metas.take(
                        j as int,
                    ).filter(score_pred(kw, sc as nat)),
                decreases self.packages@.len() - j,
            {
                let s_j = score_of(&self.packages[j], keywords, &words);
                let ghost pred = score_pred(kw, sc as nat);
                proof {
                    reveal(Seq::filter);
                    assert(metas[j as int] == meta_model(self.packages@[j as int]));
                    assert(metas.take(j + 1).drop_last() =~= metas.take(j as int));
                    assert(metas.take(j + 1).last() == metas[j as int]);
                    assert(s_j == pkg_score(metas[j as int], kw));
                }
                if s_j == sc {
                    results.push(self.packages[j].clone());
                    proof {
                        let f = |m: PackageMetadata| meta_model(m);
                        assert(pred(metas[j as int]));
                        assert(metas.take(j + 1).filter(pred) =~= metas.take(j as int).filter(
                            pred,
                        ).push(metas[j as int]));
                        assert(results@.map_values(f) =~= results@.drop_last().map_values(f).push(
                            meta_model(results@.last()),
                        ));
                        assert(meta_model(results@.last()) == metas[j as int]);
                        assert((base + metas.take(j as int).filter(pred)).push(metas[j as int])
                            =~= base + metas.take(j + 1).filter(pred));
                    }
                } else {
                    proof {
                        assert(!pred(metas[j as int]));
                        assert(metas.take(j + 1).filter(pred) =~= metas.take(j as int).filter(
                            pred,
                        ));
                    }
                }
                j += 1;
            }
            proof {
                assert(metas.take(metas.len() as int) =~= metas);
                assert(ranked_from(metas, kw, sc as nat) == metas.filter(score_pred(kw, sc as nat))
                    + ranked_from(metas, kw, (sc - 1) as nat));
            }
            sc = sc - 1;
        }
        proof {
            assert(ranked_from(metas, kw, 0) =~= Seq::<MetaModel>::empty());
            assert(results@.map_values(|m: PackageMetadata| meta_model(m)) + Seq::<
                MetaModel,
            >::empty() =~= results@.map_values(|m: PackageMetadata| meta_model(m)));
        }
        Ok(results)
    }
}

/// LAW — installing into an empty store leaves exactly one entry, and
/// its full name is the installed manifest's full name.
pub proof fn lemma_install_into_empty_store(metas: Seq<MetaModel>, meta: MetaModel)
    requires
        metas.len() == 0,
    ensures
        spec_install(metas, meta).len() == 1,
        spec_install(metas, meta)[0] == meta,
        Package::spec_full_name(spec_install(metas, meta)[0].pkg) == Package::spec_full_name(
            meta.pkg,
        ),
{
    reveal(Seq::filter);
    assert(metas.filter(|x: MetaModel| x.path != meta.path) =~= Seq::<MetaModel>::empty());
}

/// LAW — a forced installation overwrites: afterwards the destination
/// directory holds exactly the new entry, and every other entry is kept
/// in order.
pub proof fn lemma_install_overwrites(metas: Seq<MetaModel>, meta: MetaModel)
    ensures
        spec_install(metas, meta).last() == meta,
        forall|i: int|
            0 <= i < spec_install(metas, meta).len() && #[trigger] spec_install(metas, meta)[i].path
                == meta.path ==> spec_install(metas, meta)[i] == meta,
        spec_install(metas, meta) =~= metas.filter(|x: MetaModel| x.path != meta.path).push(meta),
{
    let pred = |x: MetaModel| x.path != meta.path;
    broadcast use vstd::seq_lib::group_filter_ensures;
    let r = spec_install(metas, meta);
    assert forall|i: int| 0 <= i < r.len() && #[trigger] r[i].path == meta.path implies r[i] == meta
        by {
        if i < r.len() - 1 {
            assert(r[i] == metas.filter(pred)[i]);
            assert(pred(metas.filter(pred)[i]));
        }
    }
}

} // verus!
