//! Versions, as semver reads and orders them.

use vstd::prelude::*;

verus! {

/// A semantic version. Its pre-release and its build metadata are empty where
/// it has none.
pub struct Version {
    pub major: u64,
    pub minor: u64,
    pub patch: u64,
    pub pre: String,
    pub build: String,
}

/// What a version says.
#[verifier::ext_equal]
pub struct VersionView {
    pub major: u64,
    pub minor: u64,
    pub patch: u64,
    pub pre: Seq<char>,
    pub build: Seq<char>,
}

impl View for Version {
    type V = VersionView;

    open spec fn view(&self) -> VersionView {
        VersionView {
            major: self.major,
            minor: self.minor,
            patch: self.patch,
            pre: self.pre@,
            build: self.build@,
        }
    }
}

/// The version that `text` writes down, if it is one, as `Version::parse` reads
/// it.
pub uninterp spec fn parsed_version(text: Seq<char>) -> Option<VersionView>;

/// Whether `a` comes before `b`, as semver's own order has it; nothing where
/// one of the two holds a pre-release or build metadata that no version has.
pub uninterp spec fn version_order(a: VersionView, b: VersionView) -> Option<bool>;

/// A version that semver can order.
pub open spec fn is_orderable(v: VersionView) -> bool {
    version_order(v, v) is Some
}

/// `a` is older than `b`.
pub open spec fn is_older(a: VersionView, b: VersionView) -> bool {
    version_order(a, b) == Some(true)
}

/// What semver documents of its order: every version that was parsed has its
/// place in it, and where `a` is not older than `b`, nor `b` than `c`, `a` is not
/// older than `c`.
pub open spec fn is_totally_ordered() -> bool {
    &&& forall|text: Seq<char>|
        (#[trigger] parsed_version(text)) matches Some(v) ==> is_orderable(v)
    &&& forall|a: VersionView, b: VersionView, c: VersionView|
        is_orderable(a) && is_orderable(b) && is_orderable(c) && !(#[trigger] is_older(a, b))
            && !(#[trigger] is_older(b, c)) ==> !is_older(a, c)
}

/// The numbers of `a` come before those of `b`.
pub open spec fn has_lower_numbers(a: VersionView, b: VersionView) -> bool {
    ||| a.major < b.major
    ||| a.major == b.major && a.minor < b.minor
    ||| a.major == b.major && a.minor == b.minor && a.patch < b.patch
}

/// The numbers of `a` and `b` are the same.
pub open spec fn has_same_numbers(a: VersionView, b: VersionView) -> bool {
    a.major == b.major && a.minor == b.minor && a.patch == b.patch
}

/// `a` is a pre-release of the release `b`.
pub open spec fn is_prerelease_of(a: VersionView, b: VersionView) -> bool {
    has_same_numbers(a, b) && a.pre.len() > 0 && b.pre.len() == 0
}

/// `semver::Version::parse`: the version the text writes down, field by field,
/// and nothing where the text is not a version. What it parses can be ordered.
#[verifier::external_body]
pub(crate) fn parse(text: &str) -> (r: Option<Version>)
    ensures
        r is Some <==> parsed_version(text@) is Some,
        r matches Some(v) ==> parsed_version(text@) == Some(v@) && is_orderable(v@),
{
    semver::Version::parse(text).ok().map(|v| Version {
        major: v.major,
        minor: v.minor,
        patch: v.patch,
        pre: v.pre.as_str().to_string(),
        build: v.build.as_str().to_string(),
    })
}

/// `<` on `semver::Version`, for the two versions put together again by
/// `Prerelease::new` and `BuildMetadata::new`, which refuse text that is not
/// one. It goes by the numbers first, and where they are the same, a
/// pre-release comes before its release. No version comes before itself. The
/// order is total: where `a` does not come before `b`, neither does any `c` that
/// does not come before `a`. How it orders two pre-releases, or two builds, of
/// the same numbers is only named.
#[verifier::external_body]
pub(crate) fn precedes(a: &Version, b: &Version) -> (r: Option<bool>)
    ensures
        r == version_order(a@, b@),
        r is Some == (is_orderable(a@) && is_orderable(b@)),
        r matches Some(before) ==> {
            &&& has_lower_numbers(a@, b@) ==> before
            &&& has_lower_numbers(b@, a@) ==> !before
            &&& is_prerelease_of(a@, b@) ==> before
            &&& is_prerelease_of(b@, a@) ==> !before
            &&& a@ == b@ ==> !before
            &&& !before ==> forall|c: VersionView|
                is_orderable(c) && !is_older(c, a@) ==> !(#[trigger] is_older(c, b@))
        },
{
    let a = semver::Version {
        major: a.major,
        minor: a.minor,
        patch: a.patch,
        pre: semver::Prerelease::new(&a.pre).ok()?,
        build: semver::BuildMetadata::new(&a.build).ok()?,
    };
    let b = semver::Version {
        major: b.major,
        minor: b.minor,
        patch: b.patch,
        pre: semver::Prerelease::new(&b.pre).ok()?,
        build: semver::BuildMetadata::new(&b.build).ok()?,
    };
    Some(a < b)
}

} // verus!
