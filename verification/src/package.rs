//! Requirements and the project manifest that declares them.

use vstd::prelude::*;
use crate::model::{duplicate_all, same_all, Model};
use crate::semver::in_range;

verus! {

/// A requirement: a package name and the range of versions that is asked for.
#[derive(Debug, Clone, PartialEq, Eq)]
pub struct PackageSpecifier {
    pub name: String,
    /// The version requirement, as written in the manifest.
    pub version: String,
}

/// The model of [`PackageSpecifier`]: texts as sequences of characters.
pub struct PackageSpecifierView {
    pub name: Seq<char>,
    pub version: Seq<char>,
}

impl View for PackageSpecifier {
    type V = PackageSpecifierView;

    open spec fn view(&self) -> PackageSpecifierView {
        PackageSpecifierView { name: self.name@, version: self.version@ }
    }
}

impl DeepView for PackageSpecifier {
    type V = PackageSpecifierView;

    open spec fn deep_view(&self) -> PackageSpecifierView {
        self@
    }
}

impl Model for PackageSpecifier {
    fn same(&self, other: &Self) -> (r: bool) {
        self.name == other.name && self.version == other.version
    }

    fn duplicate(&self) -> (r: Self) {
        PackageSpecifier { name: self.name.clone(), version: self.version.clone() }
    }
}

impl PackageSpecifierView {
    /// Whether a package of this name at `version` meets the requirement.
    pub open spec fn admits(self, name: Seq<char>, version: Seq<char>) -> bool {
        name == self.name && in_range(self.version, version)
    }
}

impl PackageSpecifier {
    /// A requirement for the package `name` in the range `version`.
    pub fn new(name: String, version: String) -> (r: Self)
        ensures
            r@.name == name@,
            r@.version == version@,
    {
        PackageSpecifier { name, version }
    }

    /// Whether `version` lies in the required range.
    pub fn satisfies(&self, version: &String) -> (r: bool)
        ensures
            r == in_range(self@.version, version@),
    {
        crate::semver::satisfies(self.version.as_str(), version.as_str())
    }
}

/// The project manifest, as far as resolution and installation read it.
#[derive(Debug, Clone, PartialEq, Eq)]
pub struct PackageMetadata {
    pub name: String,
    pub dependencies: Vec<PackageSpecifier>,
    pub dev_dependencies: Vec<PackageSpecifier>,
    /// Script name and command line, for the scripts whose value is a string.
    pub scripts: Vec<(String, String)>,
}

/// The model of [`PackageMetadata`]: texts as sequences of characters.
pub struct PackageMetadataView {
    pub name: Seq<char>,
    pub dependencies: Seq<PackageSpecifierView>,
    pub dev_dependencies: Seq<PackageSpecifierView>,
    pub scripts: Seq<(Seq<char>, Seq<char>)>,
}

impl View for PackageMetadata {
    type V = PackageMetadataView;

    open spec fn view(&self) -> PackageMetadataView {
        PackageMetadataView {
            name: self.name@,
            dependencies: self.dependencies.deep_view(),
            dev_dependencies: self.dev_dependencies.deep_view(),
            scripts: self.scripts.deep_view(),
        }
    }
}

impl DeepView for PackageMetadata {
    type V = PackageMetadataView;

    open spec fn deep_view(&self) -> PackageMetadataView {
        self@
    }
}

impl PackageMetadataView {
    /// Every requirement of the manifest: the dependencies, then the
    /// development dependencies.
    pub open spec fn all(self) -> Seq<PackageSpecifierView> {
        self.dependencies + self.dev_dependencies
    }

    /// The command of the first script called `name`, if there is one.
    pub open spec fn script(self, name: Seq<char>) -> Option<Seq<char>> {
        find_script(self.scripts, name)
    }
}

/// The command of the first entry of `scripts` whose name is `name`.
pub open spec fn find_script(scripts: Seq<(Seq<char>, Seq<char>)>, name: Seq<char>) -> Option<
    Seq<char>,
>
    decreases scripts.len(),
{
    if scripts.len() == 0 {
        None
    } else if scripts[0].0 == name {
        Some(scripts[0].1)
    } else {
        find_script(scripts.skip(1), name)
    }
}

impl PackageMetadata {
    /// Every requirement of the manifest: the dependencies, then the
    /// development dependencies.
    pub fn iter_all(&self) -> (r: Vec<PackageSpecifier>)
        ensures
            r.deep_view() == self@.all(),
    {
        let mut out = duplicate_all(&self.dependencies);
        let n = self.dependencies.len();
        let mut i: usize = 0;
        while i < self.dev_dependencies.len()
            invariant
                0 <= i <= self.dev_dependencies.len(),
                n == self.dependencies.len(),
                out.len() == n + i,
                forall|j: int| 0 <= j < n ==> out@[j]@ == self.dependencies@[j]@,
                forall|j: int| 0 <= j < i ==> out@[n + j]@ == self.dev_dependencies@[j]@,
            decreases self.dev_dependencies.len() - i,
        {
            out.push(self.dev_dependencies[i].duplicate());
            i = i + 1;
        }
        assert(out.deep_view() =~= self@.all());
        out
    }

    /// The command of the script called `name`, if the manifest declares one.
    pub fn script(&self, name: &str) -> (r: Option<String>)
        ensures
            r.deep_view() == self@.script(name@),
    {
        let mut i: usize = 0;
        assert(self.scripts.deep_view().skip(0) =~= self.scripts.deep_view());
        while i < self.scripts.len()
            invariant
                0 <= i <= self.scripts.len(),
                find_script(self.scripts.deep_view(), name@) == find_script(
                    self.scripts.deep_view().skip(i as int),
                    name@,
                ),
            decreases self.scripts.len() - i,
        {
            let ghost rest = self.scripts.deep_view().skip(i as int);
            assert(rest[0] == self.scripts@[i as int].deep_view());
            assert(rest.skip(1) =~= self.scripts.deep_view().skip(i as int + 1));
            if crate::text::str_eq(self.scripts[i].0.as_str(), name) {
                return Some(self.scripts[i].1.clone());
            }
            i = i + 1;
        }
        None
    }

    /// Whether the two manifests have the same model.
    pub fn same(&self, other: &PackageMetadata) -> (r: bool)
        ensures
            r == (self@ == other@),
    {
        self.name == other.name && same_all(&self.dependencies, &other.dependencies) && same_all(
            &self.dev_dependencies,
            &other.dev_dependencies,
        ) && same_all(&self.scripts, &other.scripts)
    }
}

} // verus!
