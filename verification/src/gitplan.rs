//! The pure planning half of the git fetch service: building clone urls,
//! choosing destinations, and deciding how a requested version is checked
//! out.  The actual clone and checkout are carried out by the caller.

use vstd::prelude::*;

use crate::errors::SpmError;
use crate::strutil::ends_with_str;
use crate::strutil::split_chars;
use crate::strutil::split_str;
use crate::strutil::strip_git;
use crate::strutil::strip_git_suffix;
use crate::strutil::views_of;

verus! {

/// The clone url formed from a base url and a repository spec: the two
/// joined with a single slash.
pub open spec fn spec_clone_url(base_url: Seq<char>, repository: Seq<char>) -> Seq<char> {
    if crate::strutil::ends_with(base_url, "/"@) {
        base_url + repository
    } else {
        base_url + "/"@ + repository
    }
}

/// Join a base url and a repository spec into a clone url, respecting a
/// trailing slash on the base.
pub fn join_clone_url(base_url: &str, repository: &str) -> (r: String)
    ensures
        r@ == spec_clone_url(base_url@, repository@),
{
    let mut url = base_url.to_owned();
    if !ends_with_str(base_url, "/") {
        url.append("/");
    }
    url.append(repository);
    url
}

/// The repository name of a url: its last slash-delimited segment with
/// every trailing `.git` removed.
pub open spec fn spec_repo_name(url: Seq<char>) -> Seq<char> {
    strip_git(split_chars(url, '/').last())
}

/// Extract the repository name from a url.
pub fn extract_repo_name_from_url(url: &str) -> (r: String)
    ensures
        r@ == spec_repo_name(url@),
{
    let parts = split_str(url, '/');
    let last = &parts[parts.len() - 1];
    proof {
        let vs = views_of(parts@);
        assert(vs.last() == parts@[parts@.len() - 1]@);
    }
    strip_git_suffix(last.as_str())
}

/// Where a repository is cloned: the explicit destination when one is
/// given, else a directory named after the repository under the
/// temporary root.
pub open spec fn spec_clone_destination(
    url: Seq<char>,
    destination: Option<Seq<char>>,
    temp_root: Seq<char>,
) -> Seq<char> {
    match destination {
        Some(d) => d,
        None => temp_root + "/"@ + spec_repo_name(url),
    }
}

/// Choose the directory a repository is cloned into.
pub fn clone_destination(url: &str, destination: Option<&str>, temp_root: &str) -> (r: String)
    ensures
        r@ == spec_clone_destination(
            url@,
            match destination {
                Some(d) => Some(d@),
                None => None,
            },
            temp_root@,
        ),
{
    match destination {
        Some(d) => d.to_owned(),
        None => {
            let mut r = temp_root.to_owned();
            r.append("/");
            r.append(extract_repo_name_from_url(url).as_str());
            r
        },
    }
}

/// How a requested version is checked out once the repository is cloned.
#[derive(Debug)]
pub struct CheckoutPlan {
    /// The commit the requested version resolves to.
    pub revision: String,
    /// Whether a local branch named after the version must be created
    /// before the checkout.
    pub create_branch: bool,
}

/// Decide the checkout of a requested version from the outcome of the
/// two ref lookups: the tag wins over the remote branch, and a version
/// matching neither fails.  `tag_target` and `branch_target` carry the
/// commit each ref points at, if the ref resolved.
pub fn resolve_version_checkout(
    tag_target: Option<String>,
    branch_target: Option<String>,
    local_branch_exists: bool,
) -> (r: Result<CheckoutPlan, SpmError>)
    ensures
        match r {
            Ok(plan) => (match tag_target {
                Some(t) => plan.revision == t,
                None => branch_target matches Some(b) && plan.revision == b,
            }) && plan.create_branch == !local_branch_exists,
            Err(e) => tag_target is None && branch_target is None && e
                == SpmError::VersionNotFound,
        },
{
    let revision = match tag_target {
        Some(t) => t,
        None => match branch_target {
            Some(b) => b,
            None => {
                return Err(SpmError::VersionNotFound);
            },
        },
    };
    Ok(CheckoutPlan { revision, create_branch: !local_branch_exists })
}

/// Where an installation request points: a remote repository to clone, or
/// a local directory.
#[derive(Debug)]
pub enum InstallSource {
    /// A remote spec: the text the manager displays for it, and the
    /// repository spec to fetch relative to the base url.  The clone is
    /// moved into place after fetching.
    Remote {
        /// `base_url/path`, used as the recorded source url.
        string_representation: String,
        /// The repository spec handed to the fetch service.
        repository: String,
    },
    /// A local directory, copied into place.
    Local {
        /// The path as given.
        package_path: String,
    },
}

/// Decide how an installation path is resolved.  A path that exists on
/// disk is installed from the local directory; anything else is treated
/// as a `namespace/name` remote spec, which must have at least two
/// slash-delimited segments.
pub fn handle_installation_path(path: &str, base_url: &str, path_exists: bool) -> (r: Result<
    InstallSource,
    SpmError,
>)
    ensures
        match r {
            Ok(src) => (match src {
                InstallSource::Remote { string_representation, repository } => !path_exists
                    && split_chars(path@, '/').len() >= 2 && string_representation@ == base_url@
                    + "/"@ + path@ && repository@ == path@,
                InstallSource::Local { package_path } => path_exists && package_path@ == path@,
            }),
            Err(e) => !path_exists && split_chars(path@, '/').len() < 2 && e
                == SpmError::InvalidInput,
        },
{
    if !path_exists {
        let parts = split_str(path, '/');
        if parts.len() < 2 {
            return Err(SpmError::InvalidInput);
        }
        let mut rep = base_url.to_owned();
        rep.append("/");
        rep.append(path);
        Ok(InstallSource::Remote { string_representation: rep, repository: path.to_owned() })
    } else {
        Ok(InstallSource::Local { package_path: path.to_owned() })
    }
}

/// The slot directory of a dependency under a package root:
/// `<package>/dependencies/<namespace>/<name>`.
pub open spec fn spec_dependency_path(
    package_path: Seq<char>,
    namespace: Seq<char>,
    name: Seq<char>,
) -> Seq<char> {
    package_path + "/dependencies/"@ + namespace + "/"@ + name
}

/// Construct the directory of a dependency slot.  The caller reports
/// whether the package's `dependencies/` directory and the slot directory
/// exist; the first missing one fails the construction.
pub fn construct_dependency_path(
    package_path: &str,
    namespace: &str,
    name: &str,
    dependencies_dir_exists: bool,
    slot_dir_exists: bool,
) -> (r: Result<String, SpmError>)
    ensures
        match r {
            Ok(p) => dependencies_dir_exists && slot_dir_exists && p@ == spec_dependency_path(
                package_path@,
                namespace@,
                name@,
            ),
            Err(e) => if !dependencies_dir_exists {
                e == SpmError::BrokenPackage(crate::errors::IntegrityPart::DependenciesFolder)
            } else {
                !slot_dir_exists && e == SpmError::DependencyNotFound
            },
        },
{
    if !dependencies_dir_exists {
        return Err(SpmError::BrokenPackage(crate::errors::IntegrityPart::DependenciesFolder));
    }
    if !slot_dir_exists {
        return Err(SpmError::DependencyNotFound);
    }
    let mut p = package_path.to_owned();
    p.append("/dependencies/");
    p.append(namespace);
    p.append("/");
    p.append(name);
    Ok(p)
}

} // verus!
