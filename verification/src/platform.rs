//! The platforms that the recorder tells apart.

use vstd::prelude::*;

use crate::scan::same_str;

verus! {

/// A platform, as far as the recorder treats it differently.
#[derive(Clone, Copy, Debug, PartialEq, Eq, Structural)]
pub enum Platform {
    /// Linux: PipeWire, X11 and the Wayland portal.
    Linux,
    /// Windows: WASAPI and Windows Graphics Capture.
    Windows,
    /// Any other Unix.
    Other,
}

impl Platform {
    /// The platform of an operating system name.
    pub open spec fn named(os: Seq<char>) -> Platform {
        if os == "linux"@ {
            Platform::Linux
        } else if os == "windows"@ {
            Platform::Windows
        } else {
            Platform::Other
        }
    }

    /// The platform that an operating system name (as in `std::env::consts::OS`) stands for.
    pub fn of(os: &str) -> (r: Platform)
        ensures
            r == Platform::named(os@),
    {
        if same_str(os, "linux") {
            Platform::Linux
        } else if same_str(os, "windows") {
            Platform::Windows
        } else {
            Platform::Other
        }
    }
}

/// The program that opens a file, a directory or an address the way the user's system does.
pub open spec fn opener_of(platform: Platform) -> Seq<char> {
    if platform == Platform::Windows {
        "explorer"@
    } else {
        "xdg-open"@
    }
}

/// Names the program that opens a file, a directory or an address.
pub fn system_opener(platform: Platform) -> (r: &'static str)
    ensures
        r@ == opener_of(platform),
{
    match platform {
        Platform::Windows => "explorer",
        _ => "xdg-open",
    }
}

/// Linux and Windows are known by their names, and every other system is another Unix. Files are
/// opened by the explorer on Windows, and by `xdg-open` elsewhere.
pub proof fn law_platforms(os: Seq<char>, platform: Platform)
    ensures
        Platform::named(os) == Platform::Linux <==> os == "linux"@,
        Platform::named(os) == Platform::Windows <==> os == "windows"@,
        opener_of(platform) == "explorer"@ <==> platform == Platform::Windows,
        opener_of(platform) == "xdg-open"@ <==> platform != Platform::Windows,
{
    reveal_strlit("linux");
    reveal_strlit("windows");
    reveal_strlit("explorer");
    reveal_strlit("xdg-open");
    assert("linux"@.len() != "windows"@.len());
    assert("explorer"@[0] != "xdg-open"@[0]);
}

} // verus!
