//! The name and version of this package.

use vstd::prelude::*;
use vstd::string::*;

verus! {

/// Name of this package.
pub const PACKAGE_NAME: &'static str = "toolbelt";

/// Version of this package, as text.
pub const PACKAGE_VERSION: &'static str = "0.1.0";

/// Major component of the crate version.
pub const VERSION_MAJOR: u32 = 0;

/// Minor component of the crate version.
pub const VERSION_MINOR: u32 = 1;

/// Patch component of the crate version.
pub const VERSION_PATCH: u32 = 0;

/// Numeric pre-release component of the crate version; zero when the version
/// has no numeric pre-release tag.
pub const VERSION_PRE: u32 = 0;

/// The packed form of a version: `major` in bits 19 to 21, `minor` in bits
/// 15 to 18, `patch` in bits 11 to 14 and `pre` in bits 0 to 8. Each
/// component is reduced to the width of its field; the other bits are zero.
pub open spec fn packed_version(major: u32, minor: u32, patch: u32, pre: u32) -> int {
    (major % 8) * 0x8_0000 + (minor % 16) * 0x8000 + (patch % 16) * 0x800 + pre % 512
}

/// Packs the four version components into one `u32`.
///
/// The result is stated twice: as the sum of the four fields, and by the
/// shifts and masks that read each field back.
pub fn pack_version(major: u32, minor: u32, patch: u32, pre: u32) -> (packed: u32)
    ensures
        packed == packed_version(major, minor, patch, pre),
        (packed >> 19) == major % 8,
        (packed >> 15) & 15 == minor % 16,
        (packed >> 11) & 15 == patch % 16,
        packed & 2047 == pre % 512,
{
    let packed: u32 = ((major & 7) << 19) | ((minor & 15) << 15) | ((patch & 15) << 11) | (pre
        & 511);
    assert(packed == (major % 8) * 0x8_0000 + (minor % 16) * 0x8000 + (patch % 16) * 0x800 + pre
        % 512) by (bit_vector)
        requires
            packed == ((major & 7) << 19) | ((minor & 15) << 15) | ((patch & 15) << 11) | (pre
                & 511),
    ;
    assert((packed >> 19) == major % 8 && (packed >> 15) & 15 == minor % 16 && (packed >> 11) & 15
        == patch % 16 && packed & 2047 == pre % 512) by (bit_vector)
        requires
            packed == ((major & 7) << 19) | ((minor & 15) << 15) | ((patch & 15) << 11) | (pre
                & 511),
    ;
    packed
}

/// The version of this crate in packed form.
pub fn version() -> (packed: u32)
    ensures
        packed == packed_version(VERSION_MAJOR, VERSION_MINOR, VERSION_PATCH, VERSION_PRE),
        packed == 0x8000,
{
    pack_version(VERSION_MAJOR, VERSION_MINOR, VERSION_PATCH, VERSION_PRE)
}

/// The title-case form that the `Inflector` crate gives to `text`.
pub uninterp spec fn title_case(text: Seq<char>) -> Seq<char>;

/// Calls `inflector::cases::titlecase::to_title_case`.
///
/// The function reads nothing but its argument, so its result is named by
/// `title_case`; what the title-case form looks like is not stated here.
#[verifier::external_body]
pub(crate) fn to_title_case(text: &str) -> (title: String)
    ensures
        title@ == title_case(text@),
{
    inflector::cases::titlecase::to_title_case(text)
}

/// A title, followed by a space and the version where one is asked for.
pub open spec fn titled(title: Seq<char>, version: Seq<char>, with_version: bool) -> Seq<char> {
    if with_version {
        title + seq![' '] + version
    } else {
        title
    }
}

/// Puts `version` behind `title`, separated by a space, if `with_version` is
/// set; otherwise hands `title` back.
pub fn title_with_version(title: String, version: &str, with_version: bool) -> (name: String)
    ensures
        name@ == titled(title@, version@, with_version),
{
    if with_version {
        proof {
            reveal_strlit(" ");
        }
        title.concat(" ").concat(version)
    } else {
        title
    }
}

/// The name of this package in title case, with its version behind it if
/// `with_version` is set.
pub fn get_name_from_cargo(with_version: bool) -> (name: String)
    ensures
        name@ == titled(title_case(PACKAGE_NAME@), PACKAGE_VERSION@, with_version),
{
    title_with_version(to_title_case(PACKAGE_NAME), PACKAGE_VERSION, with_version)
}

} // verus!
