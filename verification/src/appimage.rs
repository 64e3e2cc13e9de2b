//! The environment of system programs that are started from an AppImage, whose own libraries and
//! plugins would lead them astray.

use vstd::prelude::*;

use crate::platform::Platform;
use crate::tokens::str_views;

verus! {

/// The variables that an AppImage sets for itself.
pub open spec fn injected() -> Seq<Seq<char>> {
    seq![
        "LD_LIBRARY_PATH"@,
        "LD_PRELOAD"@,
        "GST_PLUGIN_SYSTEM_PATH"@,
        "GST_PLUGIN_SYSTEM_PATH_1_0"@,
        "GST_PLUGIN_PATH"@,
        "GST_PLUGIN_PATH_1_0"@,
        "GST_PLUGIN_SCANNER"@,
        "GST_PLUGIN_SCANNER_1_0"@,
        "GIO_MODULE_DIR"@,
        "GDK_PIXBUF_MODULE_FILE"@,
    ]
}

/// Whether the application runs as an AppImage, given whether the variable `APPIMAGE` is set.
pub open spec fn as_appimage(platform: Platform, variable_set: bool) -> bool {
    platform == Platform::Linux && variable_set
}

/// Tests whether the application runs as an AppImage.
pub fn running_as_appimage(platform: Platform, variable_set: bool) -> (r: bool)
    ensures
        r == as_appimage(platform, variable_set),
{
    match platform {
        Platform::Linux => variable_set,
        _ => false,
    }
}

/// Lists the variables to be taken out of the environment of a system program: those of the
/// AppImage where the application runs as one, else none.
pub fn strip_appimage_env(platform: Platform, variable_set: bool) -> (r: Vec<&'static str>)
    ensures
        str_views(r@) == if as_appimage(platform, variable_set) {
            injected()
        } else {
            seq![]
        },
{
    if running_as_appimage(platform, variable_set) {
        let r = vec![
            "LD_LIBRARY_PATH",
            "LD_PRELOAD",
            "GST_PLUGIN_SYSTEM_PATH",
            "GST_PLUGIN_SYSTEM_PATH_1_0",
            "GST_PLUGIN_PATH",
            "GST_PLUGIN_PATH_1_0",
            "GST_PLUGIN_SCANNER",
            "GST_PLUGIN_SCANNER_1_0",
            "GIO_MODULE_DIR",
            "GDK_PIXBUF_MODULE_FILE",
        ];
        assert(str_views(r@) =~= injected());
        r
    } else {
        let r: Vec<&'static str> = Vec::new();
        assert(str_views(r@) =~= seq![]);
        r
    }
}

/// Taken out are the variables of the loader, of GIO and of the pictures, and those of the plugins,
/// each in its general form and in that of the present version.
pub proof fn law_injected_variables()
    ensures
        injected().contains("LD_LIBRARY_PATH"@),
        injected().contains("LD_PRELOAD"@),
        injected().contains("GIO_MODULE_DIR"@),
        injected().contains("GDK_PIXBUF_MODULE_FILE"@),
        injected().contains("GST_PLUGIN_SYSTEM_PATH"@),
        injected().contains("GST_PLUGIN_PATH"@),
        injected().contains("GST_PLUGIN_SCANNER"@),
        injected().contains("GST_PLUGIN_SYSTEM_PATH"@ + "_1_0"@),
        injected().contains("GST_PLUGIN_PATH"@ + "_1_0"@),
        injected().contains("GST_PLUGIN_SCANNER"@ + "_1_0"@),
        injected().len() == 10,
{
    reveal_strlit("_1_0");
    reveal_strlit("GST_PLUGIN_SYSTEM_PATH");
    reveal_strlit("GST_PLUGIN_PATH");
    reveal_strlit("GST_PLUGIN_SCANNER");
    reveal_strlit("GST_PLUGIN_SYSTEM_PATH_1_0");
    reveal_strlit("GST_PLUGIN_PATH_1_0");
    reveal_strlit("GST_PLUGIN_SCANNER_1_0");
    let all = injected();
    assert(all[0] == "LD_LIBRARY_PATH"@);
    assert(all[1] == "LD_PRELOAD"@);
    assert(all[2] == "GST_PLUGIN_SYSTEM_PATH"@);
    assert(all[3] =~= "GST_PLUGIN_SYSTEM_PATH"@ + "_1_0"@);
    assert(all[4] == "GST_PLUGIN_PATH"@);
    assert(all[5] =~= "GST_PLUGIN_PATH"@ + "_1_0"@);
    assert(all[6] == "GST_PLUGIN_SCANNER"@);
    assert(all[7] =~= "GST_PLUGIN_SCANNER"@ + "_1_0"@);
    assert(all[8] == "GIO_MODULE_DIR"@);
    assert(all[9] == "GDK_PIXBUF_MODULE_FILE"@);
}

} // verus!
