//! Updates of the application: what is told of one, and whether it can be installed from within.

use vstd::prelude::*;

use crate::appimage::{as_appimage, running_as_appimage};
use crate::platform::Platform;

verus! {

/// What is told of an update.
pub struct UpdateInfo {
    pub version: String,
    pub current: String,
    pub notes: Option<String>,
    /// Whether it can be installed from within; else the user is shown where to get it.
    pub installable: bool,
}

/// Whether an update can be installed from within: on Windows, and on Linux for an AppImage, which
/// is replaced in place.
pub open spec fn installable(platform: Platform, appimage: bool) -> bool {
    match platform {
        Platform::Windows => true,
        Platform::Linux => appimage,
        Platform::Other => false,
    }
}

/// Tests whether an update can be installed from within.
pub fn self_installable_with(platform: Platform, appimage: bool) -> (r: bool)
    ensures
        r == installable(platform, appimage),
{
    match platform {
        Platform::Windows => true,
        Platform::Linux => appimage,
        Platform::Other => false,
    }
}

/// Tests whether an update can be installed from within, given whether the variable `APPIMAGE` is
/// set.
pub fn self_installable(platform: Platform, variable_set: bool) -> (r: bool)
    ensures
        r == installable(platform, as_appimage(platform, variable_set)),
{
    self_installable_with(platform, running_as_appimage(platform, variable_set))
}

/// What is told of an update that was found.
pub fn check_update(
    version: String,
    current: String,
    notes: Option<String>,
    platform: Platform,
    variable_set: bool,
) -> (r: UpdateInfo)
    ensures
        r == (UpdateInfo {
            version,
            current,
            notes,
            installable: installable(platform, as_appimage(platform, variable_set)),
        }),
{
    UpdateInfo {
        version,
        current,
        notes,
        installable: self_installable(platform, variable_set),
    }
}

/// Gives the address where the latest release is found.
pub fn releases_page() -> (r: &'static str)
    ensures
        r@ == "https://github.com/micferna/discord-rec/releases/latest"@,
{
    "https://github.com/micferna/discord-rec/releases/latest"
}

/// An update is installed from within on Windows, and on Linux exactly where the application runs
/// as an AppImage; nowhere else.
pub proof fn law_installable(appimage: bool, variable_set: bool)
    ensures
        installable(Platform::Windows, appimage),
        installable(Platform::Linux, appimage) <==> appimage,
        !installable(Platform::Other, appimage),
        as_appimage(Platform::Linux, variable_set) <==> variable_set,
        !as_appimage(Platform::Windows, variable_set),
        !as_appimage(Platform::Other, variable_set),
{
}

} // verus!
