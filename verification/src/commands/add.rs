//! Adding, removing and upgrading the requirements of the manifest.

use vstd::prelude::*;
use crate::model::duplicate_all;
use crate::npm::{RegistryPackage, RegistryPackageView};
use crate::package::{find_script, PackageMetadata, PackageSpecifier, PackageSpecifierView};
use crate::text::{concat, str_eq};

verus! {

/// The position of the first requirement for `name`; the number of
/// requirements if there is none.
pub open spec fn requirement_position(list: Seq<PackageSpecifierView>, name: Seq<char>) -> int
    decreases list.len(),
{
    if list.len() == 0 {
        0
    } else if list[0].name == name {
        0
    } else {
        1 + requirement_position(list.skip(1), name)
    }
}

/// The list with the requirement put in under its name: in the place of the
/// requirement that had the name, or at the end.
pub open spec fn with_requirement(list: Seq<PackageSpecifierView>, req: PackageSpecifierView)
    -> Seq<PackageSpecifierView> {
    let at = requirement_position(list, req.name);
    if at < list.len() {
        list.update(at, req)
    } else {
        list.push(req)
    }
}

/// The list without its first requirement for `name`; none where it has no
/// such requirement.
pub open spec fn without_requirement(list: Seq<PackageSpecifierView>, name: Seq<char>) -> Option<
    Seq<PackageSpecifierView>,
> {
    let at = requirement_position(list, name);
    if at < list.len() {
        Some(list.remove(at))
    } else {
        None
    }
}

/// The position of the first requirement for `name`.
fn find_requirement(list: &Vec<PackageSpecifier>, name: &str) -> (r: usize)
    ensures
        r == requirement_position(list.deep_view(), name@),
        r <= list.len(),
{
    let ghost all = list.deep_view();
    let mut i: usize = 0;
    assert(all.skip(0) =~= all);
    while i < list.len()
        invariant
            0 <= i <= list.len(),
            all == list.deep_view(),
            requirement_position(all, name@) == i + requirement_position(
                all.skip(i as int),
                name@,
            ),
        decreases list.len() - i,
    {
        assert(all.skip(i as int)[0] == list@[i as int]@);
        assert(all.skip(i as int).skip(1) =~= all.skip(i as int + 1));
        if str_eq(list[i].name.as_str(), name) {
            return i;
        }
        i = i + 1;
    }
    i
}

/// Puts the requirement into the list under its name.
pub fn put_requirement(list: &mut Vec<PackageSpecifier>, req: PackageSpecifier)
    ensures
        final(list).deep_view() == with_requirement(old(list).deep_view(), req@),
{
    let ghost all = list.deep_view();
    let at = find_requirement(list, req.name.as_str());
    if at < list.len() {
        list[at] = req;
        assert(list.deep_view() =~= all.update(at as int, req@));
    } else {
        list.push(req);
        assert(list.deep_view() =~= all.push(req@));
    }
}

/// Takes the requirement for `name` out of the list; tells whether there
/// was one.
pub fn take_requirement(list: &mut Vec<PackageSpecifier>, name: &str) -> (r: bool)
    ensures
        match without_requirement(old(list).deep_view(), name@) {
            Some(rest) => r && final(list).deep_view() == rest,
            None => !r && final(list).deep_view() == old(list).deep_view(),
        },
{
    let ghost all = list.deep_view();
    let at = find_requirement(list, name);
    if at < list.len() {
        list.remove(at);
        assert(list.deep_view() =~= all.remove(at as int));
        true
    } else {
        false
    }
}

/// The version that the tag `latest` points at.
pub open spec fn latest_of(package: RegistryPackageView) -> Option<Seq<char>> {
    find_script(package.dist_tags, "latest"@)
}

/// The range that is written into the manifest for the version `latest`:
/// the version itself where it is to be pinned, else the caret range from
/// it.
pub open spec fn added_range(latest: Seq<char>, pin: bool) -> Seq<char> {
    if pin {
        latest
    } else {
        "^"@ + latest
    }
}

/// Why a package could not be added or removed.
#[derive(Debug, Clone, PartialEq, Eq)]
pub enum ManifestError {
    /// The registry names no latest version of the package.
    NoLatest(String),
    /// The manifest has no requirement for the package.
    NotSpecified(String),
}

/// The model of [`ManifestError`]: texts as sequences of characters.
pub enum ManifestErrorView {
    NoLatest(Seq<char>),
    NotSpecified(Seq<char>),
}

impl View for ManifestError {
    type V = ManifestErrorView;

    open spec fn view(&self) -> ManifestErrorView {
        match self {
            ManifestError::NoLatest(name) => ManifestErrorView::NoLatest(name@),
            ManifestError::NotSpecified(name) => ManifestErrorView::NotSpecified(name@),
        }
    }
}

/// The requirements after the first `n` fetched packages were added, each
/// at the range from its latest version; the first package without a latest
/// version is the error.
pub open spec fn added(
    list: Seq<PackageSpecifierView>,
    fetched: Seq<RegistryPackageView>,
    pin: bool,
    n: int,
) -> Result<Seq<PackageSpecifierView>, ManifestErrorView>
    decreases n,
{
    if n <= 0 {
        Ok(list)
    } else {
        match added(list, fetched, pin, n - 1) {
            Err(e) => Err(e),
            Ok(before) => match latest_of(fetched[n - 1]) {
                None => Err(ManifestErrorView::NoLatest(fetched[n - 1].name)),
                Some(latest) => Ok(
                    with_requirement(
                        before,
                        PackageSpecifierView {
                            name: fetched[n - 1].name,
                            version: added_range(latest, pin),
                        },
                    ),
                ),
            },
        }
    }
}

/// The requirements after the first `n` names were removed; the first name
/// without a requirement is the error.
pub open spec fn removed(list: Seq<PackageSpecifierView>, names: Seq<Seq<char>>, n: int) -> Result<
    Seq<PackageSpecifierView>,
    ManifestErrorView,
>
    decreases n,
{
    if n <= 0 {
        Ok(list)
    } else {
        match removed(list, names, n - 1) {
            Err(e) => Err(e),
            Ok(before) => match without_requirement(before, names[n - 1]) {
                None => Err(ManifestErrorView::NotSpecified(names[n - 1])),
                Some(rest) => Ok(rest),
            },
        }
    }
}

/// An error after the first `n` packages is the error of the first `m`,
/// for every `m` from `n` on.
pub proof fn lemma_added_error(
    list: Seq<PackageSpecifierView>,
    fetched: Seq<RegistryPackageView>,
    pin: bool,
    n: int,
    m: int,
)
    requires
        0 <= n <= m,
        added(list, fetched, pin, n) is Err,
    ensures
        added(list, fetched, pin, m) == added(list, fetched, pin, n),
    decreases m - n,
{
    if n < m {
        lemma_added_error(list, fetched, pin, n, m - 1);
    }
}

/// An error after the first `n` names is the error of the first `m`, for
/// every `m` from `n` on.
pub proof fn lemma_removed_error(
    list: Seq<PackageSpecifierView>,
    names: Seq<Seq<char>>,
    n: int,
    m: int,
)
    requires
        0 <= n <= m,
        removed(list, names, n) is Err,
    ensures
        removed(list, names, m) == removed(list, names, n),
    decreases m - n,
{
    if n < m {
        lemma_removed_error(list, names, n, m - 1);
    }
}

/// The range that is written into the manifest for the version `latest`.
pub fn added_version(latest: &str, pin: bool) -> (r: String)
    ensures
        r@ == added_range(latest@, pin),
{
    if pin {
        String::from_str(latest)
    } else {
        concat("^", latest)
    }
}

/// The manifest's requirements of one kind.
pub open spec fn requirements_in(package: PackageMetadata, dev: bool) -> Seq<
    PackageSpecifierView,
> {
    if dev {
        package@.dev_dependencies
    } else {
        package@.dependencies
    }
}

/// Whether the manifest is `old` with the requirements of one kind
/// replaced by `list`.
pub open spec fn rewritten(
    new: PackageMetadata,
    old: PackageMetadata,
    dev: bool,
    list: Seq<PackageSpecifierView>,
) -> bool {
    &&& new@.name == old@.name
    &&& new@.scripts == old@.scripts
    &&& requirements_in(new, dev) == list
    &&& requirements_in(new, !dev) == requirements_in(old, !dev)
}

/// Adds the fetched packages to the manifest, among the development
/// dependencies with `dev`: each at its latest version where `pin` is set,
/// else at the caret range from it. A requirement for the same name is
/// replaced. Where a package has no latest version the manifest stays as it
/// is.
pub fn add_packages(
    manifest: &mut PackageMetadata,
    fetched: &Vec<RegistryPackage>,
    dev: bool,
    pin: bool,
) -> (r: Result<(), ManifestError>)
    ensures
        match added(
            requirements_in(*old(manifest), dev),
            fetched.deep_view(),
            pin,
            fetched.len() as int,
        ) {
            Ok(list) => r is Ok && rewritten(*final(manifest), *old(manifest), dev, list),
            Err(e) => r matches Err(error) && error@ == e && *final(manifest) == *old(manifest),
        },
{
    let ghost start = requirements_in(*manifest, dev);
    let mut list = if dev {
        duplicate_all(&manifest.dev_dependencies)
    } else {
        duplicate_all(&manifest.dependencies)
    };
    let mut i: usize = 0;
    while i < fetched.len()
        invariant
            0 <= i <= fetched.len(),
            *manifest == *old(manifest),
            start == requirements_in(*old(manifest), dev),
            added(start, fetched.deep_view(), pin, i as int) == Ok::<
                Seq<PackageSpecifierView>,
                ManifestErrorView,
            >(list.deep_view()),
        decreases fetched.len() - i,
    {
        let package = &fetched[i];
        assert(fetched.deep_view()[i as int] == package@);
        let latest = find_tag(&package.dist_tags, "latest");
        match latest {
            None => {
                proof {
                    lemma_added_error(
                        start,
                        fetched.deep_view(),
                        pin,
                        i as int + 1,
                        fetched.len() as int,
                    );
                }
                return Err(ManifestError::NoLatest(package.name.clone()));
            },
            Some(latest) => {
                let req = PackageSpecifier {
                    name: package.name.clone(),
                    version: added_version(latest.as_str(), pin),
                };
                put_requirement(&mut list, req);
            },
        }
        i = i + 1;
    }
    if dev {
        manifest.dev_dependencies = list;
    } else {
        manifest.dependencies = list;
    }
    Ok(())
}

/// The value of the first tag called `name`.
fn find_tag(tags: &Vec<(String, String)>, name: &str) -> (r: Option<String>)
    ensures
        r.deep_view() == find_script(tags.deep_view(), name@),
{
    let mut i: usize = 0;
    assert(tags.deep_view().skip(0) =~= tags.deep_view());
    while i < tags.len()
        invariant
            0 <= i <= tags.len(),
            find_script(tags.deep_view(), name@) == find_script(
                tags.deep_view().skip(i as int),
                name@,
            ),
        decreases tags.len() - i,
    {
        let ghost rest = tags.deep_view().skip(i as int);
        assert(rest[0] == tags@[i as int].deep_view());
        assert(rest.skip(1) =~= tags.deep_view().skip(i as int + 1));
        if str_eq(tags[i].0.as_str(), name) {
            return Some(tags[i].1.clone());
        }
        i = i + 1;
    }
    None
}

/// Removes the requirements for `names` from the manifest, from the
/// development dependencies with `dev`. Where the manifest has no
/// requirement for one of the names, it stays as it is.
pub fn cmd_remove(manifest: &mut PackageMetadata, names: &Vec<String>, dev: bool) -> (r: Result<
    (),
    ManifestError,
>)
    ensures
        match removed(requirements_in(*old(manifest), dev), names.deep_view(), names.len() as int) {
            Ok(list) => r is Ok && rewritten(*final(manifest), *old(manifest), dev, list),
            Err(e) => r matches Err(error) && error@ == e && *final(manifest) == *old(manifest),
        },
{
    let ghost start = requirements_in(*manifest, dev);
    let mut list = if dev {
        duplicate_all(&manifest.dev_dependencies)
    } else {
        duplicate_all(&manifest.dependencies)
    };
    let mut i: usize = 0;
    while i < names.len()
        invariant
            0 <= i <= names.len(),
            *manifest == *old(manifest),
            start == requirements_in(*old(manifest), dev),
            removed(start, names.deep_view(), i as int) == Ok::<
                Seq<PackageSpecifierView>,
                ManifestErrorView,
            >(list.deep_view()),
        decreases names.len() - i,
    {
        assert(names.deep_view()[i as int] == names@[i as int]@);
        if !take_requirement(&mut list, names[i].as_str()) {
            proof {
                lemma_removed_error(start, names.deep_view(), i as int + 1, names.len() as int);
            }
            return Err(ManifestError::NotSpecified(names[i].clone()));
        }
        i = i + 1;
    }
    if dev {
        manifest.dev_dependencies = list;
    } else {
        manifest.dependencies = list;
    }
    Ok(())
}

/// The names of the requirements, in order.
pub open spec fn names_of(list: Seq<PackageSpecifierView>) -> Seq<Seq<char>> {
    Seq::new(list.len(), |i: int| list[i].name)
}

/// The packages to fetch for an upgrade: the names of the dependencies, and
/// the names of the development dependencies.
pub fn cmd_upgrade(package: &PackageMetadata) -> (r: (Vec<String>, Vec<String>))
    ensures
        r.0.deep_view() == names_of(package@.dependencies),
        r.1.deep_view() == names_of(package@.dev_dependencies),
{
    (requirement_names(&package.dependencies), requirement_names(&package.dev_dependencies))
}

/// The names of the requirements, in order.
fn requirement_names(list: &Vec<PackageSpecifier>) -> (r: Vec<String>)
    ensures
        r.deep_view() == names_of(list.deep_view()),
{
    let mut out: Vec<String> = Vec::new();
    let mut i: usize = 0;
    while i < list.len()
        invariant
            0 <= i <= list.len(),
            out.len() == i,
            forall|j: int| 0 <= j < i ==> out@[j]@ == list@[j]@.name,
        decreases list.len() - i,
    {
        out.push(list[i].name.clone());
        i = i + 1;
    }
    assert(out.deep_view() =~= names_of(list.deep_view()));
    out
}

} // verus!
