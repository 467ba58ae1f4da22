//! Operations on a single local package: adding, removing and refreshing
//! the dependencies declared in its manifest.  Every mutation returns the
//! re-serialized manifest so the caller can persist it, together with the
//! directory work to carry out.

use vstd::prelude::*;

use crate::codec::spec_parse;
use crate::codec::spec_write;
use crate::codec::write_manifest;
use crate::dependency::derive_name_and_namespace;
use crate::dependency::find_slot;
use crate::dependency::spec_add;
use crate::dependency::Dependency;
use crate::errors::SpmError;
use crate::gitplan::spec_dependency_path;
use crate::manifest::Package;

verus! {

/// What carrying out a dependency addition on disk requires.
#[derive(Debug)]
pub struct AddDependencyPlan {
    /// The dependency that was recorded, with its derived slot.
    pub dependency: Dependency,
    /// The slot directory the source tree is copied into.
    pub target_path: String,
    /// The updated manifest document to write back.
    pub manifest_text: String,
}

/// What carrying out a dependency removal on disk requires.
#[derive(Debug)]
pub struct RemoveDependencyPlan {
    /// The dependency that was removed from the manifest.
    pub removed: Dependency,
    /// The slot directory to delete if it is present.
    pub slot_dir_path: String,
    /// The updated manifest document to write back.
    pub manifest_text: String,
}

/// What refreshing one dependency on disk requires.
#[derive(Debug)]
pub struct DependencyRefreshPlan {
    /// The url the dependency is re-materialized from.
    pub url: String,
    /// The slot directory to clear and refill.
    pub target_path: String,
    /// The version to fetch: the override when one was given, else the
    /// stored version.
    pub effective_version: String,
    /// The slot written as `namespace/name`.
    pub full_name: String,
}

/// The manager of one local package: its root directory, the path of its
/// manifest file, and the manifest itself.
#[derive(Debug)]
pub struct LocalPackageManager {
    /// The package root directory.
    pub root_directory: String,
    /// The manifest file inside the root directory.
    pub package_json_path: String,
    /// The manifest being operated on.
    pub package: Package,
}

impl LocalPackageManager {
    /// A manager over a package root whose manifest was already loaded.
    pub fn new(package_root_directory: String, package: Package) -> (r: LocalPackageManager)
        ensures
            r.root_directory == package_root_directory,
            r.package_json_path@ == package_root_directory@ + "/package.json"@,
            r.package == package,
    {
        let mut package_json_path = package_root_directory.clone();
        package_json_path.append("/package.json");
        proof {
            reveal_strlit("/package.json");
        }
        LocalPackageManager { root_directory: package_root_directory, package_json_path, package }
    }

    /// Load the manifest from the manifest file: a missing file, a parse
    /// failure and a failed well-formedness check are the three failures,
    /// in that order, so no load skips the integrity check.  The caller
    /// reads the file and probes the directory for the facts.
    pub fn load_package_json(
        &self,
        manifest_file_exists: bool,
        manifest_text: &str,
        facts: &crate::manifest::PackageDirFacts,
    ) -> (r: Result<Package, SpmError>)
        ensures
            match r {
                Ok(p) => manifest_file_exists && spec_parse(manifest_text@) == Some(p.model())
                    && crate::manifest::first_integrity_failure(*facts) is None,
                Err(e) => if !manifest_file_exists {
                    e == SpmError::MissingManifest
                } else if spec_parse(manifest_text@) is None {
                    e == SpmError::MalformedManifest
                } else {
                    crate::manifest::first_integrity_failure(*facts) matches Some(part) && e
                        == SpmError::BrokenPackage(part)
                },
            },
    {
        Package::from_file(manifest_file_exists, manifest_text, facts)
    }

    /// The manifest document to persist for the current state.
    pub fn update_package_json(&self) -> (r: String)
        ensures
            r@ == spec_write(self.package.model()),
    {
        write_manifest(&self.package)
    }

    /// Add a dependency to the package.  The url's slot is derived; the
    /// package must have a `dependencies/` directory; the slot directory
    /// must not exist yet; and the source must be a library package.  On
    /// success the manifest records the dependency and the plan says
    /// where to copy the source tree and what to write back.
    pub fn add_dependency(
        &mut self,
        dependency_source: &Package,
        url: &str,
        version: &str,
        url_is_local_path: bool,
        dependencies_dir_exists: bool,
        slot_dir_exists: bool,
    ) -> (r: Result<AddDependencyPlan, SpmError>)
        ensures
            match r {
                Ok(plan) => {
                    &&& derive_name_and_namespace(url@, url_is_local_path) == Some(
                        (plan.dependency.name@, plan.dependency.namespace@),
                    )
                    &&& plan.dependency.name@.len() > 0
                    &&& plan.dependency.url@ == url@
                    &&& plan.dependency.version@ == version@
                    &&& dependencies_dir_exists
                    &&& !slot_dir_exists
                    &&& dependency_source.is_library
                    &&& plan.target_path@ == spec_dependency_path(
                        old(self).root_directory@,
                        plan.dependency.namespace@,
                        plan.dependency.name@,
                    )
                    &&& final(self).package.dependencies@ == spec_add(
                        old(self).package.dependencies@,
                        plan.dependency,
                    )
                    &&& final(self).package.name == old(self).package.name
                    &&& final(self).package.namespace == old(self).package.namespace
                    &&& final(self).package.is_library == old(self).package.is_library
                    &&& final(self).root_directory == old(self).root_directory
                    &&& final(self).package_json_path == old(self).package_json_path
                    &&& plan.manifest_text@ == spec_write(final(self).package.model())
                },
                Err(e) => {
                    &&& *final(self) == *old(self)
                    &&& (if derive_name_and_namespace(url@, url_is_local_path) is None {
                        e == SpmError::InvalidInput
                    } else if derive_name_and_namespace(
                        url@,
                        url_is_local_path,
                    ).unwrap().0.len() == 0 {
                        e == SpmError::InvalidInput
                    } else if !dependencies_dir_exists {
                        e == SpmError::BrokenPackage(
                            crate::errors::IntegrityPart::DependenciesFolder,
                        )
                    } else if slot_dir_exists {
                        e == SpmError::DependencySlotExists
                    } else {
                        !dependency_source.is_library && e == SpmError::NotALibrary
                    })
                },
            },
    {
        let dependency = match Dependency::new(
            url.to_owned(),
            version.to_owned(),
            url_is_local_path,
        ) {
            Ok(d) => d,
            Err(e) => {
                return Err(e);
            },
        };
        if dependency.name.as_str().unicode_len() == 0 {
            return Err(SpmError::InvalidInput);
        }
        if !dependencies_dir_exists {
            return Err(SpmError::BrokenPackage(crate::errors::IntegrityPart::DependenciesFolder));
        }
        if slot_dir_exists {
            return Err(SpmError::DependencySlotExists);
        }
        if !dependency_source.is_library {
            return Err(SpmError::NotALibrary);
        }
        let mut target_path = self.root_directory.clone();
        target_path.append("/dependencies/");
        target_path.append(dependency.namespace.as_str());
        target_path.append("/");
        target_path.append(dependency.name.as_str());
        let recorded = dependency.clone();
        self.package.dependencies.add(dependency);
        let manifest_text = write_manifest(&self.package);
        Ok(AddDependencyPlan { dependency: recorded, target_path, manifest_text })
    }

    /// Remove a dependency slot from the package.  A slot absent from the
    /// manifest fails and leaves everything untouched; otherwise the
    /// manifest drops the entry and the plan says which directory to
    /// delete (tolerating its absence) and what to write back.
    pub fn remove_dependency(&mut self, name: &str, namespace: &str) -> (r: Result<
        RemoveDependencyPlan,
        SpmError,
    >)
        ensures
            match r {
                Ok(plan) => {
                    &&& find_slot(old(self).package.dependencies@, name@, namespace@) matches Some(
                        i,
                    ) && plan.removed == old(self).package.dependencies@[i]
                        && final(self).package.dependencies@ == old(
                        self,
                    ).package.dependencies@.remove(i)
                    &&& plan.slot_dir_path@ == spec_dependency_path(
                        old(self).root_directory@,
                        plan.removed.namespace@,
                        plan.removed.name@,
                    )
                    &&& final(self).package.name == old(self).package.name
                    &&& final(self).package.namespace == old(self).package.namespace
                    &&& final(self).root_directory == old(self).root_directory
                    &&& final(self).package_json_path == old(self).package_json_path
                    &&& plan.manifest_text@ == spec_write(final(self).package.model())
                },
                Err(e) => {
                    &&& *final(self) == *old(self)
                    &&& find_slot(old(self).package.dependencies@, name@, namespace@) is None
                    &&& e == SpmError::DependencyNotFound
                },
            },
    {
        if self.package.dependencies.find_by_name_and_namespace(name, namespace).is_none() {
            return Err(SpmError::DependencyNotFound);
        }
        let removed = match self.package.dependencies.remove(name, namespace) {
            Some(d) => d,
            None => {
                proof {
                    assert(false);
                }
                return Err(SpmError::DependencyNotFound);
            },
        };
        let mut slot_dir_path = self.root_directory.clone();
        slot_dir_path.append("/dependencies/");
        slot_dir_path.append(removed.namespace.as_str());
        slot_dir_path.append("/");
        slot_dir_path.append(removed.name.as_str());
        let manifest_text = write_manifest(&self.package);
        Ok(RemoveDependencyPlan { removed, slot_dir_path, manifest_text })
    }

    /// Plan the refresh of every dependency: each entry names the url to
    /// re-materialize, the slot directory to clear, the effective version
    /// (the override when one was given), and the slot's full name.  A
    /// package with no dependencies yields an empty plan, and the
    /// manifest re-serialization is the only write left to do.
    pub fn refresh_dependencies(&self, version_override: Option<&str>) -> (r: Vec<
        DependencyRefreshPlan,
    >)
        ensures
            r@.len() == self.package.dependencies@.len(),
            forall|i: int|
                0 <= i < r@.len() ==> {
                    let d = self.package.dependencies@[i];
                    &&& (#[trigger] r@[i]).url@ == d.url@
                    &&& r@[i].target_path@ == spec_dependency_path(
                        self.root_directory@,
                        d.namespace@,
                        d.name@,
                    )
                    &&& r@[i].effective_version@ == (match version_override {
                        Some(v) => v@,
                        None => d.version@,
                    })
                    &&& r@[i].full_name@ == d.namespace@ + "/"@ + d.name@
                },
    {
        let deps = self.package.dependencies.get_all();
        let mut plans: Vec<DependencyRefreshPlan> = Vec::new();
        let mut i: usize = 0;
        while i < deps.len()
            invariant
                0 <= i <= deps@.len(),
                deps@ == self.package.dependencies@,
                plans@.len() == i,
                forall|k: int|
                    0 <= k < i ==> {
                        let d = self.package.dependencies@[k];
                        &&& (#[trigger] plans@[k]).url@ == d.url@
                        &&& plans@[k].target_path@ == spec_dependency_path(
                            self.root_directory@,
                            d.namespace@,
                            d.name@,
                        )
                        &&& plans@[k].effective_version@ == (match version_override {
                            Some(v) => v@,
                            None => d.version@,
                        })
                        &&& plans@[k].full_name@ == d.namespace@ + "/"@ + d.name@
                    },
            decreases deps@.len() - i,
        {
            let d = &deps[i];
            let mut target_path = self.root_directory.clone();
            target_path.append("/dependencies/");
            target_path.append(d.namespace.as_str());
            target_path.append("/");
            target_path.append(d.name.as_str());
            let effective_version = match version_override {
                Some(v) => v.to_owned(),
                None => d.version.clone(),
            };
            let full_name = d.get_full_name();
            plans.push(
                DependencyRefreshPlan {
                    url: d.url.clone(),
                    target_path,
                    effective_version,
                    full_name,
                },
            );
            i += 1;
        }
        plans
    }

    /// Finish one dependency refresh once the slot was re-materialized:
    /// a fetched package that is not a library fails (the caller rolls
    /// the slot directory back); otherwise the stored version becomes the
    /// effective one.
    pub fn finish_dependency_update(
        &mut self,
        index: usize,
        fetched: &Package,
        effective_version: String,
    ) -> (r: Result<(), SpmError>)
        requires
            index < old(self).package.dependencies@.len(),
        ensures
            match r {
                Ok(()) => {
                    &&& fetched.is_library
                    &&& final(self).package.dependencies@ == old(
                        self,
                    ).package.dependencies@.update(
                        index as int,
                        Dependency {
                            version: effective_version,
                            ..old(self).package.dependencies@[index as int]
                        },
                    )
                    &&& final(self).package.name == old(self).package.name
                    &&& final(self).root_directory == old(self).root_directory
                    &&& final(self).package_json_path == old(self).package_json_path
                },
                Err(e) => {
                    &&& *final(self) == *old(self)
                    &&& !fetched.is_library
                    &&& e == SpmError::NotALibrary
                },
            },
    {
        if !fetched.is_library {
            return Err(SpmError::NotALibrary);
        }
        self.package.dependencies.set_version_at(index, effective_version);
        Ok(())
    }
}

} // verus!
