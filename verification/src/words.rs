//! The words that argument lists are made of: none is taken for a link or for the muxer, and none
//! holds a control character.

use vstd::prelude::*;

use crate::naming::lemma_decimal_is_safe;
use crate::text::{decimal, is_control};

verus! {

/// Whether a text holds no control character.
pub open spec fn printable(t: Seq<char>) -> bool {
    forall|i: int| 0 <= i < t.len() ==> !is_control(#[trigger] t[i])
}

/// Whether no argument holds a control character.
pub open spec fn all_printable(args: Seq<Seq<char>>) -> bool {
    forall|i: int| 0 <= i < args.len() ==> printable(#[trigger] args[i])
}

/// Whether a text is told from a link and from the name of the muxer by its length and its first
/// character, whatever follows it.
pub open spec fn firm(t: Seq<char>) -> bool {
    t.len() >= 2 && (t[0] != 'm' || t.len() > 4)
}

/// Whether a text is firm and printable.
pub open spec fn word(t: Seq<char>) -> bool {
    firm(t) && printable(t)
}

/// What is firm is neither a link nor the name of the muxer, and stays firm whatever follows it;
/// what is made of printable parts is printable.
pub(crate) proof fn lemma_words()
    ensures
        "!"@ != "mux."@,
        printable("!"@),
        printable("mux."@),
        forall|t: Seq<char>| #[trigger] firm(t) ==> t != "!"@ && t != "mux."@,
        forall|t: Seq<char>, x: Seq<char>| firm(t) ==> firm(#[trigger] (t + x)),
        forall|t: Seq<char>, x: Seq<char>|
            printable(t) && printable(x) ==> printable(#[trigger] (t + x)),
        forall|n: nat| printable(#[trigger] decimal(n)),
{
    reveal_strlit("!");
    reveal_strlit("mux.");
    assert("!"@.len() != "mux."@.len());
    assert forall|t: Seq<char>, x: Seq<char>| printable(t) && printable(x) implies printable(
        #[trigger] (t + x),
    ) by {
        let s = t + x;
        assert forall|i: int| 0 <= i < s.len() implies !is_control(#[trigger] s[i]) by {
            if i < t.len() {
                assert(s[i] == t[i]);
            } else {
                assert(s[i] == x[i - t.len()]);
            }
        }
    }
    assert forall|n: nat| printable(#[trigger] decimal(n)) by {
        lemma_decimal_is_safe(n);
    }
}

/// The words of the video encoders.
pub(crate) proof fn lemma_encoder_words()
    ensures
        word("nvh264enc"@),
        word("vah264enc"@),
        word("qsvh264enc"@),
        word("amfh264enc"@),
        word("mfh264enc"@),
        word("x264enc"@),
        word("bitrate="@),
        word("gop-size=120"@),
        word("key-int-max=120"@),
        word("speed-preset=veryfast"@),
        word("tune=zerolatency"@),
{
    reveal_strlit("nvh264enc");
    reveal_strlit("vah264enc");
    reveal_strlit("qsvh264enc");
    reveal_strlit("amfh264enc");
    reveal_strlit("mfh264enc");
    reveal_strlit("x264enc");
    reveal_strlit("bitrate=");
    reveal_strlit("gop-size=120");
    reveal_strlit("key-int-max=120");
    reveal_strlit("speed-preset=veryfast");
    reveal_strlit("tune=zerolatency");
}

/// The words of the picture, from its capture to its encoder.
pub(crate) proof fn lemma_picture_words()
    ensures
        word("ximagesrc"@),
        word("xid="@),
        word("use-damage=0"@),
        word("video/x-raw,framerate="@),
        word("/1"@),
        word("pipewiresrc"@),
        word("fd="@),
        word("path="@),
        word("do-timestamp=true"@),
        word("d3d11screencapturesrc"@),
        word("window-handle="@),
        word("show-cursor=true"@),
        word("d3d11download"@),
        word("queue"@),
        word("videoconvert"@),
        word("videoscale"@),
        word("video/x-raw,width="@),
        word(",height="@),
        word(",pixel-aspect-ratio=1/1"@),
        word("h264parse"@),
        word("avdec_h264"@),
{
    reveal_strlit("ximagesrc");
    reveal_strlit("xid=");
    reveal_strlit("use-damage=0");
    reveal_strlit("video/x-raw,framerate=");
    reveal_strlit("/1");
    reveal_strlit("pipewiresrc");
    reveal_strlit("fd=");
    reveal_strlit("path=");
    reveal_strlit("do-timestamp=true");
    reveal_strlit("d3d11screencapturesrc");
    reveal_strlit("window-handle=");
    reveal_strlit("show-cursor=true");
    reveal_strlit("d3d11download");
    reveal_strlit("queue");
    reveal_strlit("videoconvert");
    reveal_strlit("videoscale");
    reveal_strlit("video/x-raw,width=");
    reveal_strlit(",height=");
    reveal_strlit(",pixel-aspect-ratio=1/1");
    reveal_strlit("h264parse");
    reveal_strlit("avdec_h264");
}

/// The words of the sound, from its sources to its encoders.
pub(crate) proof fn lemma_sound_words()
    ensures
        word("pipewiresrc"@),
        word("target-object="@),
        word("do-timestamp=true"@),
        word("wasapi2src"@),
        word("loopback=true"@),
        word("loopback-mode=include-process-tree"@),
        word("loopback-target-pid="@),
        word("queue"@),
        word("audioconvert"@),
        word("audioresample"@),
        word("audiomixer"@),
        word("name=amix"@),
        word("amix."@),
        word("opusenc"@),
        word("bitrate="@),
        word("opusdec"@),
        word("aacparse"@),
        word("voaacenc"@),
        word("avenc_aac"@),
{
    reveal_strlit("pipewiresrc");
    reveal_strlit("target-object=");
    reveal_strlit("do-timestamp=true");
    reveal_strlit("wasapi2src");
    reveal_strlit("loopback=true");
    reveal_strlit("loopback-mode=include-process-tree");
    reveal_strlit("loopback-target-pid=");
    reveal_strlit("queue");
    reveal_strlit("audioconvert");
    reveal_strlit("audioresample");
    reveal_strlit("audiomixer");
    reveal_strlit("name=amix");
    reveal_strlit("amix.");
    reveal_strlit("opusenc");
    reveal_strlit("bitrate=");
    reveal_strlit("opusdec");
    reveal_strlit("aacparse");
    reveal_strlit("voaacenc");
    reveal_strlit("avenc_aac");
}

/// The words of the noise reduction.
pub(crate) proof fn lemma_denoise_words()
    ensures
        word("audio/x-raw,rate=48000"@),
        word("webrtcdsp"@),
        word("echo-cancel=false"@),
        word("noise-suppression=true"@),
        word("noise-suppression-level=moderate"@),
        word("high-pass-filter=true"@),
{
    reveal_strlit("audio/x-raw,rate=48000");
    reveal_strlit("webrtcdsp");
    reveal_strlit("echo-cancel=false");
    reveal_strlit("noise-suppression=true");
    reveal_strlit("noise-suppression-level=moderate");
    reveal_strlit("high-pass-filter=true");
}

/// The words of the files that are read and written, and of the tracks in them.
pub(crate) proof fn lemma_file_words()
    ensures
        word("-e"@),
        word("filesrc"@),
        word("filesink"@),
        word("location="@),
        word("matroskademux"@),
        word("name=d"@),
        word("matroskamux"@),
        word("qtmux"@),
        word("name=mux"@),
        word("d.video_0"@),
        word("d.audio_"@),
        word("max-size-time=0"@),
        word("max-size-bytes=0"@),
        word("max-size-buffers=0"@),
{
    reveal_strlit("-e");
    reveal_strlit("filesrc");
    reveal_strlit("filesink");
    reveal_strlit("location=");
    reveal_strlit("matroskademux");
    reveal_strlit("name=d");
    reveal_strlit("matroskamux");
    reveal_strlit("qtmux");
    reveal_strlit("name=mux");
    reveal_strlit("d.video_0");
    reveal_strlit("d.audio_");
    reveal_strlit("max-size-time=0");
    reveal_strlit("max-size-bytes=0");
    reveal_strlit("max-size-buffers=0");
}

} // verus!
