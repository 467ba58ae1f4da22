//! The dependency record and the slot-unique dependency collection.
//!
//! A dependency is identified by a `(name, namespace)` slot derived from
//! its url; the collection keeps insertion order and at most one entry per
//! slot, replacing in place on conflict.

use vstd::prelude::*;

use crate::errors::SpmError;
use crate::strutil::last_path_segment;
use crate::strutil::last_segment;
use crate::strutil::split_chars;
use crate::strutil::split_str;
use crate::strutil::strip_git;
use crate::strutil::strip_git_suffix;
use crate::strutil::views_of;

verus! {

/// The namespace recorded for dependencies taken from a local path.
pub open spec fn local_namespace() -> Seq<char> {
    "local"@
}

/// The `(name, namespace)` a remote url yields: with at least two
/// slash-delimited segments, the name is the last segment with any
/// trailing `.git` stripped and the namespace is the second-to-last
/// segment; with fewer segments the derivation fails.
pub open spec fn derive_remote(url: Seq<char>) -> Option<(Seq<char>, Seq<char>)> {
    let parts = split_chars(url, '/');
    if parts.len() >= 2 {
        Some((strip_git(parts.last()), parts[parts.len() - 2]))
    } else {
        None
    }
}

/// The `(name, namespace)` derivation: a url that is an existing local
/// path takes its last non-empty path segment as name under the fixed
/// local namespace; any other url follows the remote rule.
pub open spec fn derive_name_and_namespace(url: Seq<char>, is_local_path: bool) -> Option<
    (Seq<char>, Seq<char>),
> {
    if is_local_path && last_path_segment(url) is Some {
        Some((last_path_segment(url).unwrap(), local_namespace()))
    } else {
        derive_remote(url)
    }
}

/// Extract the name and namespace from a repository url, a local path, or
/// a short `namespace/name` expression.  `is_local_path` reports whether
/// the text names an existing path on disk; the caller probes for that.
pub fn extract_name_and_namespace(text: &str, is_local_path: bool) -> (r: Result<
    (String, String),
    SpmError,
>)
    ensures
        match r {
            Ok(p) => derive_name_and_namespace(text@, is_local_path) == Some((p.0@, p.1@)),
            Err(e) => derive_name_and_namespace(text@, is_local_path) is None && e
                == SpmError::InvalidInput,
        },
{
    if is_local_path {
        match last_segment(text) {
            Some(seg) => {
                return Ok((seg, "local".to_owned()));
            },
            None => {},
        }
    }
    let parts = split_str(text, '/');
    if parts.len() >= 2 {
        let name = strip_git_suffix(parts[parts.len() - 1].as_str());
        let namespace = parts[parts.len() - 2].clone();
        proof {
            let vs = views_of(parts@);
            assert(vs.last() == parts@[parts@.len() - 1]@);
            assert(vs[vs.len() - 2] == parts@[parts@.len() - 2]@);
        }
        Ok((name, namespace))
    } else {
        Err(SpmError::InvalidInput)
    }
}

/// LAW — url derivation.  A remote url with at least two slash-delimited
/// segments derives to its last segment (with every trailing `.git`
/// removed) under the second-to-last segment as namespace; a url with
/// fewer segments fails to derive.
pub proof fn lemma_url_derivation(url: Seq<char>)
    ensures
        split_chars(url, '/').len() >= 2 ==> derive_remote(url) == Some(
            (
                strip_git(split_chars(url, '/').last()),
                split_chars(url, '/')[split_chars(url, '/').len() - 2],
            ),
        ),
        split_chars(url, '/').len() < 2 ==> derive_remote(url) is None,
{
}

/// LAW — `.git` stripping.  Appending a `.git` suffix to a name never
/// changes what the derivation strips it down to.
pub proof fn lemma_strip_git_once(name: Seq<char>)
    ensures
        strip_git(name + ".git"@) == strip_git(name),
{
    reveal_strlit(".git");
    let s = name + ".git"@;
    assert(crate::strutil::is_git_suffix(s)) by {
        assert(s.len() == name.len() + 4);
        assert(s[s.len() - 4] == '.');
        assert(s[s.len() - 3] == 'g');
        assert(s[s.len() - 2] == 'i');
        assert(s[s.len() - 1] == 't');
    }
    assert(s.take(s.len() - 4) =~= name);
}

/// A single dependency: the persisted `(url, version)` pair and the
/// `(name, namespace)` slot derived from the url.
#[derive(Debug, PartialEq, Eq)]
pub struct Dependency {
    /// The repository url or local path the dependency is taken from.
    pub url: String,
    /// The requested version: a tag or branch name.
    pub version: String,
    /// The slot name, derived from the url.
    pub name: String,
    /// The slot namespace, derived from the url.
    pub namespace: String,
}

impl Clone for Dependency {
    /// Copies every field.
    fn clone(&self) -> (res: Self)
        ensures
            res == *self,
    {
        Dependency {
            url: self.url.clone(),
            version: self.version.clone(),
            name: self.name.clone(),
            namespace: self.namespace.clone(),
        }
    }
}

/// Whether the dependency's derived fields agree with the remote
/// derivation rule applied to its url.
pub open spec fn dep_derived_remote(d: Dependency) -> bool {
    derive_remote(d.url@) == Some((d.name@, d.namespace@))
}

/// Whether the dependency's derived fields agree with the derivation rule.
pub open spec fn dep_derived(d: Dependency, is_local_path: bool) -> bool {
    derive_name_and_namespace(d.url@, is_local_path) == Some((d.name@, d.namespace@))
}

impl Dependency {
    /// Build a dependency from a url and version, deriving its slot.
    /// `url_is_local_path` reports whether the url names an existing path.
    pub fn new(url: String, version: String, url_is_local_path: bool) -> (r: Result<
        Dependency,
        SpmError,
    >)
        ensures
            match r {
                Ok(d) => d.url == url && d.version == version && dep_derived(
                    d,
                    url_is_local_path,
                ),
                Err(e) => derive_name_and_namespace(url@, url_is_local_path) is None && e
                    == SpmError::InvalidInput,
            },
    {
        let (name, namespace) = match extract_name_and_namespace(url.as_str(), url_is_local_path) {
            Ok(p) => p,
            Err(e) => {
                return Err(e);
            },
        };
        Ok(Dependency { url, version, name, namespace })
    }

    /// The slot written as `namespace/name`.
    pub fn get_full_name(&self) -> (r: String)
        ensures
            r@ == self.namespace@ + "/"@ + self.name@,
    {
        let mut r = self.namespace.clone();
        r.append("/");
        r.append(self.name.as_str());
        r
    }
}

/// Whether two dependencies occupy the same `(name, namespace)` slot.
pub open spec fn same_slot(a: Dependency, b: Dependency) -> bool {
    a.name@ == b.name@ && a.namespace@ == b.namespace@
}

/// Whether a dependency occupies the given slot.
pub open spec fn slot_matches(d: Dependency, name: Seq<char>, namespace: Seq<char>) -> bool {
    d.name@ == name && d.namespace@ == namespace
}

/// The first index whose entry occupies the given slot, if any.
pub open spec fn find_slot(s: Seq<Dependency>, name: Seq<char>, namespace: Seq<char>) -> Option<
    int,
>
    decreases s.len(),
{
    if s.len() == 0 {
        None
    } else if slot_matches(s[0], name, namespace) {
        Some(0)
    } else {
        match find_slot(s.skip(1), name, namespace) {
            Some(i) => Some(i + 1),
            None => None,
        }
    }
}

/// A found slot index is in range and is the first match.
pub proof fn lemma_find_slot_props(s: Seq<Dependency>, name: Seq<char>, namespace: Seq<char>)
    ensures
        match find_slot(s, name, namespace) {
            Some(i) => 0 <= i < s.len() && slot_matches(s[i], name, namespace) && forall|j: int|
                0 <= j < i ==> !slot_matches(s[j], name, namespace),
            None => forall|j: int| 0 <= j < s.len() ==> !slot_matches(s[j], name, namespace),
        },
    decreases s.len(),
{
    if s.len() != 0 {
        lemma_find_slot_props(s.skip(1), name, namespace);
        assert(forall|j: int| 1 <= j < s.len() ==> s[j] == s.skip(1)[j - 1]);
    }
}

/// Whether no two entries occupy the same slot.
pub open spec fn slot_unique(s: Seq<Dependency>) -> bool {
    forall|i: int, j: int| 0 <= i < j < s.len() ==> !same_slot(s[i], s[j])
}

/// What adding a dependency yields: a no-op for an identical
/// `(url, version)` pair, an in-place replacement for an occupied slot,
/// and an append otherwise.
pub open spec fn spec_add(s: Seq<Dependency>, d: Dependency) -> Seq<Dependency> {
    match find_slot(s, d.name@, d.namespace@) {
        Some(i) => if s[i].url@ == d.url@ && s[i].version@ == d.version@ {
            s
        } else {
            s.update(i, d)
        },
        None => s.push(d),
    }
}

/// Collection of dependencies, in insertion order, at most one per slot.
#[derive(Debug, PartialEq, Eq)]
pub struct Dependencies {
    deps: Vec<Dependency>,
}

impl View for Dependencies {
    type V = Seq<Dependency>;

    closed spec fn view(&self) -> Seq<Dependency> {
        self.deps@
    }
}

impl Clone for Dependencies {
    /// Copies every entry.
    fn clone(&self) -> (res: Self)
        ensures
            res@ == self@,
    {
        let mut deps: Vec<Dependency> = Vec::new();
        let mut i: usize = 0;
        while i < self.deps.len()
            invariant
                0 <= i <= self.deps@.len(),
                deps@ =~= self.deps@.take(i as int),
            decreases self.deps@.len() - i,
        {
            deps.push(self.deps[i].clone());
            i += 1;
        }
        proof {
            assert(self.deps@.take(self.deps@.len() as int) =~= self.deps@);
            assert(deps@ =~= self.deps@);
        }
        Dependencies { deps }
    }
}

impl Dependencies {
    /// Whether the collection holds at most one entry per slot.
    pub open spec fn wf(&self) -> bool {
        slot_unique(self@)
    }

    /// A collection holding the given dependencies in the given order.
    pub fn new(dependencies: Vec<Dependency>) -> (r: Self)
        ensures
            r@ == dependencies@,
    {
        Dependencies { deps: dependencies }
    }

    /// Add a dependency: a true `(url, version)` duplicate is a no-op, an
    /// occupied slot is replaced in place, anything else is appended.
    pub fn add(&mut self, dependency: Dependency)
        ensures
            final(self)@ == spec_add(old(self)@, dependency),
            old(self).wf() ==> final(self).wf(),
    {
        proof {
            lemma_find_slot_props(self@, dependency.name@, dependency.namespace@);
        }
        match self.find_by_name_and_namespace(dependency.name.as_str(), dependency.namespace.as_str()) {
            Some(i) => {
                let existing = &self.deps[i];
                if existing.url == dependency.url && existing.version == dependency.version {
                    // true duplicate: keep the collection as it is
                } else {
                    let ghost d = dependency;
                    self.deps.set(i, dependency);
                    proof {
                        let olds = old(self)@;
                        let news = self@;
                        if slot_unique(olds) {
                            assert forall|a: int, b: int| 0 <= a < b < news.len() implies !same_slot(
                                news[a],
                                news[b],
                            ) by {
                                assert(slot_matches(olds[i as int], d.name@, d.namespace@));
                                if a == i {
                                    assert(news[a] == d && news[b] == olds[b]);
                                    if same_slot(news[a], news[b]) {
                                        assert(same_slot(olds[i as int], olds[b]));
                                    }
                                } else if b == i {
                                    assert(news[b] == d && news[a] == olds[a]);
                                    if same_slot(news[a], news[b]) {
                                        assert(same_slot(olds[a], olds[i as int]));
                                    }
                                } else {
                                    assert(news[a] == olds[a] && news[b] == olds[b]);
                                }
                            }
                        }
                    }
                }
            },
            None => {
                self.deps.push(dependency);
                proof {
                    let olds = old(self)@;
                    let news = self@;
                    if slot_unique(olds) {
                        assert forall|a: int, b: int| 0 <= a < b < news.len() implies !same_slot(
                            news[a],
                            news[b],
                        ) by {
                            if b < olds.len() {
                                assert(news[a] == olds[a] && news[b] == olds[b]);
                            } else {
                                assert(news[b] == dependency);
                                assert(news[a] == olds[a]);
                                assert(!slot_matches(olds[a], dependency.name@, dependency.namespace@));
                            }
                        }
                    }
                }
            },
        }
    }

    /// Remove and return the entry at the given slot, if any.
    pub fn remove(&mut self, name: &str, namespace: &str) -> (r: Option<Dependency>)
        ensures
            match find_slot(old(self)@, name@, namespace@) {
                Some(i) => r == Some(old(self)@[i]) && final(self)@ == old(self)@.remove(i),
                None => r is None && final(self)@ == old(self)@,
            },
            old(self).wf() ==> final(self).wf(),
    {
        proof {
            lemma_find_slot_props(self@, name@, namespace@);
        }
        match self.find_by_name_and_namespace(name, namespace) {
            Some(i) => {
                let removed = self.deps.remove(i);
                proof {
                    let olds = old(self)@;
                    let news = self@;
                    if slot_unique(olds) {
                        assert forall|a: int, b: int| 0 <= a < b < news.len() implies !same_slot(
                            news[a],
                            news[b],
                        ) by {
                            let a0 = if a < i { a } else { a + 1 };
                            let b0 = if b < i { b } else { b + 1 };
                            assert(news[a] == olds[a0] && news[b] == olds[b0]);
                        }
                    }
                }
                Some(removed)
            },
            None => None,
        }
    }

    /// The index of the entry at the given slot, if any.
    pub fn find_by_name_and_namespace(&self, name: &str, namespace: &str) -> (r: Option<usize>)
        ensures
            match r {
                Some(i) => find_slot(self@, name@, namespace@) == Some(i as int) && i < self@.len(),
                None => find_slot(self@, name@, namespace@) is None,
            },
    {
        proof {
            lemma_find_slot_props(self@, name@, namespace@);
        }
        let mut i: usize = 0;
        while i < self.deps.len()
            invariant
                0 <= i <= self.deps@.len(),
                forall|j: int| 0 <= j < i ==> !slot_matches(self.deps@[j], name@, namespace@),
            decreases self.deps@.len() - i,
        {
            let d = &self.deps[i];
            if crate::strutil::str_eq(d.name.as_str(), name) && crate::strutil::str_eq(
                d.namespace.as_str(),
                namespace,
            ) {
                proof {
                    lemma_find_slot_props(self@, name@, namespace@);
                }
                return Some(i);
            }
            i += 1;
        }
        None
    }

    /// Every dependency, in insertion order.
    pub fn get_all(&self) -> (r: &Vec<Dependency>)
        ensures
            r@ == self@,
    {
        &self.deps
    }

    /// Replace the stored version of the entry at index `i`.
    pub fn set_version_at(&mut self, i: usize, version: String)
        requires
            i < old(self)@.len(),
        ensures
            final(self)@ == old(self)@.update(
                i as int,
                Dependency { version, ..old(self)@[i as int] },
            ),
            old(self).wf() ==> final(self).wf(),
    {
        let d = &self.deps[i];
        let updated = Dependency {
            url: d.url.clone(),
            version,
            name: d.name.clone(),
            namespace: d.namespace.clone(),
        };
        self.deps.set(i, updated);
        proof {
            let olds = old(self)@;
            let news = self@;
            if slot_unique(olds) {
                assert forall|a: int, b: int| 0 <= a < b < news.len() implies !same_slot(
                    news[a],
                    news[b],
                ) by {
                    assert(same_slot(news[i as int], olds[i as int]));
                    if a == i {
                        assert(news[b] == olds[b]);
                        if same_slot(news[a], news[b]) {
                            assert(same_slot(olds[i as int], olds[b]));
                        }
                    } else if b == i {
                        assert(news[a] == olds[a]);
                        if same_slot(news[a], news[b]) {
                            assert(same_slot(olds[a], olds[i as int]));
                        }
                    } else {
                        assert(news[a] == olds[a] && news[b] == olds[b]);
                    }
                }
            }
        }
    }

    /// The number of dependencies.
    pub fn len(&self) -> (r: usize)
        ensures
            r == self@.len(),
    {
        self.deps.len()
    }

    /// Whether the collection is empty.
    pub fn is_empty(&self) -> (r: bool)
        ensures
            r == (self@.len() == 0),
    {
        self.deps.len() == 0
    }
}

/// Adding the same `(url, version)` pair twice yields the very collection
/// that one addition yields, so in particular the same length.
pub proof fn lemma_add_idempotent(s: Seq<Dependency>, d: Dependency)
    ensures
        spec_add(spec_add(s, d), d) == spec_add(s, d),
{
    let s1 = spec_add(s, d);
    lemma_find_slot_props(s, d.name@, d.namespace@);
    match find_slot(s, d.name@, d.namespace@) {
        Some(i) => {
            if s[i].url@ == d.url@ && s[i].version@ == d.version@ {
                assert(s1 == s);
            } else {
                assert(s1 == s.update(i, d));
                lemma_find_slot_first(s1, d.name@, d.namespace@, i);
                assert(spec_add(s1, d) == s1);
            }
        },
        None => {
            assert(s1 == s.push(d));
            lemma_find_slot_first(s1, d.name@, d.namespace@, s.len() as int);
            assert(spec_add(s1, d) == s1);
        },
    }
}

/// If position `i` holds a slot match and nothing before it does, the
/// search finds exactly `i`.
pub proof fn lemma_find_slot_first(
    s: Seq<Dependency>,
    name: Seq<char>,
    namespace: Seq<char>,
    i: int,
)
    requires
        0 <= i < s.len(),
        slot_matches(s[i], name, namespace),
        forall|j: int| 0 <= j < i ==> !slot_matches(s[j], name, namespace),
    ensures
        find_slot(s, name, namespace) == Some(i),
    decreases s.len(),
{
    if i == 0 {
    } else {
        assert(forall|j: int| 0 <= j < s.skip(1).len() ==> s.skip(1)[j] == s[j + 1]);
        lemma_find_slot_first(s.skip(1), name, namespace, i - 1);
    }
}

/// Adding a new version for an occupied slot replaces in place: the
/// collection keeps its length and the slot entry carries the new version.
pub proof fn lemma_add_replaces_slot(s: Seq<Dependency>, d: Dependency, i: int)
    requires
        find_slot(s, d.name@, d.namespace@) == Some(i),
        !(s[i].url@ == d.url@ && s[i].version@ == d.version@),
    ensures
        spec_add(s, d).len() == s.len(),
        spec_add(s, d)[i] == d,
        forall|j: int| 0 <= j < s.len() && j != i ==> spec_add(s, d)[j] == s[j],
{
    lemma_find_slot_props(s, d.name@, d.namespace@);
}

} // verus!
