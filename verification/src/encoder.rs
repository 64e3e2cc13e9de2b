//! The H.264 encoders: which one is used, and how it is set up.

use vstd::prelude::*;

use crate::platform::Platform;
use crate::text::{decimal, with_number};
use crate::tokens::{push_owned, push_token, push_tokens, views};

verus! {

/// The H.264 encoders, from the lightest to the most universal.
#[derive(Clone, Copy, Debug, PartialEq, Eq, Structural)]
pub enum VideoEncoder {
    /// NVENC (NVIDIA GPU): hardly any CPU load.
    Nvenc,
    /// VA-API (Intel or AMD GPU, outside Windows).
    Vaapi,
    /// Quick Sync (Intel GPU, Windows).
    Qsv,
    /// AMF (AMD GPU, Windows).
    Amf,
    /// Media Foundation, the encoder of the Windows system.
    MediaFoundation,
    /// x264 in software: everywhere, but costly in 4K.
    X264,
}

impl VideoEncoder {
    /// The name shown to the user.
    pub open spec fn label_text(self) -> Seq<char> {
        match self {
            VideoEncoder::Nvenc => "NVENC (GPU NVIDIA)"@,
            VideoEncoder::Vaapi => "VA-API (GPU)"@,
            VideoEncoder::Qsv => "Quick Sync (GPU Intel)"@,
            VideoEncoder::Amf => "AMF (GPU AMD)"@,
            VideoEncoder::MediaFoundation => "Media Foundation"@,
            VideoEncoder::X264 => "x264 (CPU)"@,
        }
    }

    /// Gives the name shown to the user.
    pub fn label(self) -> (r: &'static str)
        ensures
            r@ == self.label_text(),
    {
        match self {
            VideoEncoder::Nvenc => "NVENC (GPU NVIDIA)",
            VideoEncoder::Vaapi => "VA-API (GPU)",
            VideoEncoder::Qsv => "Quick Sync (GPU Intel)",
            VideoEncoder::Amf => "AMF (GPU AMD)",
            VideoEncoder::MediaFoundation => "Media Foundation",
            VideoEncoder::X264 => "x264 (CPU)",
        }
    }

    /// The GStreamer element of the encoder.
    pub open spec fn element_text(self) -> Seq<char> {
        match self {
            VideoEncoder::Nvenc => "nvh264enc"@,
            VideoEncoder::Vaapi => "vah264enc"@,
            VideoEncoder::Qsv => "qsvh264enc"@,
            VideoEncoder::Amf => "amfh264enc"@,
            VideoEncoder::MediaFoundation => "mfh264enc"@,
            VideoEncoder::X264 => "x264enc"@,
        }
    }

    /// Names the GStreamer element of the encoder.
    pub fn element(self) -> (r: &'static str)
        ensures
            r@ == self.element_text(),
    {
        match self {
            VideoEncoder::Nvenc => "nvh264enc",
            VideoEncoder::Vaapi => "vah264enc",
            VideoEncoder::Qsv => "qsvh264enc",
            VideoEncoder::Amf => "amfh264enc",
            VideoEncoder::MediaFoundation => "mfh264enc",
            VideoEncoder::X264 => "x264enc",
        }
    }

    /// The properties of the encoder besides its bitrate, as `(name, value)`.
    pub open spec fn fixed_properties(self) -> Seq<(Seq<char>, Seq<char>)> {
        match self {
            VideoEncoder::Nvenc | VideoEncoder::Qsv | VideoEncoder::Amf => seq![
                ("gop-size"@, "120"@),
            ],
            VideoEncoder::Vaapi => seq![("key-int-max"@, "120"@)],
            VideoEncoder::MediaFoundation => seq![],
            VideoEncoder::X264 => seq![
                ("speed-preset"@, "veryfast"@),
                ("tune"@, "zerolatency"@),
                ("key-int-max"@, "120"@),
            ],
        }
    }

    /// All the properties of the encoder at `kbps` kilobits per second.
    pub open spec fn all_properties(self, kbps: nat) -> Seq<(Seq<char>, Seq<char>)> {
        seq![("bitrate"@, decimal(kbps))] + self.fixed_properties()
    }

    /// Gives all the properties of the encoder at `bitrate_kbps` kilobits per second, for an
    /// element that is set up property by property.
    pub fn properties(self, bitrate_kbps: u32) -> (r: Vec<(&'static str, String)>)
        ensures
            pair_views(r@) == self.all_properties(bitrate_kbps as nat),
    {
        let mut r: Vec<(&'static str, String)> = Vec::new();
        let rate = with_number("", bitrate_kbps as u64);
        proof {
            reveal_strlit("");
            assert(rate@ =~= decimal(bitrate_kbps as nat));
        }
        r.push(("bitrate", rate));
        match self {
            VideoEncoder::Nvenc | VideoEncoder::Qsv | VideoEncoder::Amf => {
                r.push(("gop-size", "120".to_owned()));
            },
            VideoEncoder::Vaapi => {
                r.push(("key-int-max", "120".to_owned()));
            },
            VideoEncoder::MediaFoundation => {},
            VideoEncoder::X264 => {
                r.push(("speed-preset", "veryfast".to_owned()));
                r.push(("tune", "zerolatency".to_owned()));
                r.push(("key-int-max", "120".to_owned()));
            },
        }
        assert(pair_views(r@) =~= self.all_properties(bitrate_kbps as nat));
        r
    }

    /// The encoder as `gst-launch-1.0` tokens, at `kbps` kilobits per second.
    pub open spec fn launch_tokens(self, kbps: nat) -> Seq<Seq<char>> {
        seq![self.element_text(), "bitrate="@ + decimal(kbps)] + match self {
            VideoEncoder::Nvenc | VideoEncoder::Qsv | VideoEncoder::Amf => seq!["gop-size=120"@],
            VideoEncoder::Vaapi => seq!["key-int-max=120"@],
            VideoEncoder::MediaFoundation => seq![],
            VideoEncoder::X264 => seq![
                "speed-preset=veryfast"@,
                "tune=zerolatency"@,
                "key-int-max=120"@,
            ],
        }
    }

    /// Appends the encoder as `gst-launch-1.0` tokens.
    pub fn push_args(self, args: &mut Vec<String>, bitrate_kbps: u32)
        ensures
            views(final(args)@) == views(old(args)@) + self.launch_tokens(bitrate_kbps as nat),
    {
        push_token(args, self.element());
        push_owned(args, with_number("bitrate=", bitrate_kbps as u64));
        match self {
            VideoEncoder::Nvenc | VideoEncoder::Qsv | VideoEncoder::Amf => {
                push_token(args, "gop-size=120");
            },
            VideoEncoder::Vaapi => {
                push_token(args, "key-int-max=120");
            },
            VideoEncoder::MediaFoundation => {},
            VideoEncoder::X264 => {
                push_tokens(
                    args,
                    &["speed-preset=veryfast", "tune=zerolatency", "key-int-max=120"],
                );
            },
        }
        assert(views(args@) =~= views(old(args)@) + self.launch_tokens(bitrate_kbps as nat));
    }
}

/// The texts of a list of properties.
pub open spec fn pair_views(pairs: Seq<(&str, String)>) -> Seq<(Seq<char>, Seq<char>)> {
    Seq::new(pairs.len(), |i: int| (pairs[i].0@, pairs[i].1@))
}

/// The hardware encoders of a platform, the preferred one first.
pub open spec fn candidates(platform: Platform) -> Seq<VideoEncoder> {
    if platform == Platform::Windows {
        seq![
            VideoEncoder::Nvenc,
            VideoEncoder::Qsv,
            VideoEncoder::Amf,
            VideoEncoder::MediaFoundation,
        ]
    } else {
        seq![VideoEncoder::Nvenc, VideoEncoder::Vaapi]
    }
}

/// Lists the hardware encoders of a platform, the preferred one first.
pub fn encoder_candidates(platform: Platform) -> (r: Vec<VideoEncoder>)
    ensures
        r@ == candidates(platform),
{
    let r: Vec<VideoEncoder> = if platform == Platform::Windows {
        vec![
            VideoEncoder::Nvenc,
            VideoEncoder::Qsv,
            VideoEncoder::Amf,
            VideoEncoder::MediaFoundation,
        ]
    } else {
        vec![VideoEncoder::Nvenc, VideoEncoder::Vaapi]
    };
    assert(r@ =~= candidates(platform));
    r
}

/// The first candidate that is installed, going by the answers so far; x264 without one.
pub open spec fn first_available(list: Seq<VideoEncoder>, available: Seq<bool>) -> VideoEncoder
    decreases list.len(),
{
    if list.len() == 0 || available.len() == 0 {
        VideoEncoder::X264
    } else if available[0] {
        list[0]
    } else {
        first_available(list.drop_first(), available.drop_first())
    }
}

/// Chooses the encoder: the first of the platform's candidates that is installed, else x264.
/// `available` says of each candidate, in order, whether its element is installed; candidates
/// past its end count as not installed.
pub fn detect_encoder(platform: Platform, available: &[bool]) -> (r: VideoEncoder)
    ensures
        r == first_available(candidates(platform), available@),
{
    let list = encoder_candidates(platform);
    let mut i: usize = 0;
    assert(list@.skip(0) =~= list@);
    assert(available@.skip(0) =~= available@);
    while i < list.len() && i < available.len()
        invariant
            i <= list@.len(),
            i <= available@.len(),
            list@ == candidates(platform),
            first_available(list@, available@) == first_available(
                list@.skip(i as int),
                available@.skip(i as int),
            ),
        decreases list@.len() - i,
    {
        if available[i] {
            return list[i];
        }
        assert(list@.skip(i as int).drop_first() =~= list@.skip(i + 1));
        assert(available@.skip(i as int).drop_first() =~= available@.skip(i + 1));
        i += 1;
    }
    VideoEncoder::X264
}

/// The chosen encoder is a candidate that was found installed, with none installed before it; or
/// x264, and then no candidate was found.
pub proof fn law_encoder_is_best_available(list: Seq<VideoEncoder>, available: Seq<bool>)
    ensures
        ({
            let e = first_available(list, available);
            ||| e == VideoEncoder::X264 && forall|i: int|
                0 <= i < list.len() && i < available.len() ==> !available[i]
            ||| exists|i: int|
                0 <= i < list.len() && i < available.len() && list[i] == e && available[i]
                    && forall|j: int| 0 <= j < i ==> !available[j]
        }),
    decreases list.len(),
{
    if list.len() > 0 && available.len() > 0 {
        if available[0] {
            assert(list[0] == first_available(list, available));
        } else {
            let (l, a) = (list.drop_first(), available.drop_first());
            law_encoder_is_best_available(l, a);
            let e = first_available(l, a);
            if exists|i: int|
                0 <= i < l.len() && i < a.len() && l[i] == e && a[i] && forall|j: int|
                    0 <= j < i ==> !a[j] {
                let i = choose|i: int|
                    0 <= i < l.len() && i < a.len() && l[i] == e && a[i] && forall|j: int|
                        0 <= j < i ==> !a[j];
                assert(list[i + 1] == e && available[i + 1]);
                assert forall|j: int| 0 <= j < i + 1 implies !available[j] by {
                    if j > 0 {
                        assert(!a[j - 1]);
                    }
                }
            } else {
                assert forall|i: int| 0 <= i < list.len() && i < available.len() implies
                    !available[i] by {
                    if i > 0 {
                        assert(!a[i - 1]);
                    }
                }
            }
        }
    }
}

/// Whether any of the answers is yes.
pub open spec fn any_yes(answers: Seq<bool>) -> bool {
    exists|i: int| 0 <= i < answers.len() && #[trigger] answers[i]
}

/// Gives the position of the next of `count` candidates that is to be asked for, given the answers
/// so far; none once one of them is yes, or all are given.
pub fn next_candidate(count: usize, answers: &[bool]) -> (r: Option<usize>)
    ensures
        r == if !any_yes(answers@) && answers@.len() < count {
            Some(answers@.len() as usize)
        } else {
            None
        },
{
    let mut i: usize = 0;
    while i < answers.len()
        invariant
            i <= answers@.len(),
            forall|j: int| 0 <= j < i ==> !answers@[j],
        decreases answers@.len() - i,
    {
        if answers[i] {
            assert(answers@[i as int]);
            return None;
        }
        i += 1;
    }
    if answers.len() < count {
        Some(answers.len())
    } else {
        None
    }
}

/// Once no candidate is to be asked for any more, no further answer would change the choice.
pub proof fn law_search_may_end(list: Seq<VideoEncoder>, answers: Seq<bool>, more: Seq<bool>)
    requires
        any_yes(answers) || answers.len() >= list.len(),
    ensures
        first_available(list, answers + more) == first_available(list, answers),
    decreases list.len(),
{
    if list.len() > 0 {
        assert(answers.len() > 0);
        assert((answers + more)[0] == answers[0]);
        if !answers[0] {
            let rest = answers.drop_first();
            if any_yes(answers) {
                let i = choose|i: int| 0 <= i < answers.len() && #[trigger] answers[i];
                assert(rest[i - 1]);
            }
            assert((answers + more).drop_first() =~= rest + more);
            law_search_may_end(list.drop_first(), rest, more);
        }
    }
}

/// Properties as they are written on a command line.
pub open spec fn assignments(pairs: Seq<(Seq<char>, Seq<char>)>) -> Seq<Seq<char>> {
    Seq::new(pairs.len(), |i: int| pairs[i].0 + "="@ + pairs[i].1)
}

/// An encoder that is set up property by property has the same settings as on a command line.
pub proof fn law_same_settings(encoder: VideoEncoder, kbps: nat)
    ensures
        encoder.launch_tokens(kbps) == seq![encoder.element_text()] + assignments(
            encoder.all_properties(kbps),
        ),
{
    reveal_strlit("=");
    reveal_strlit("120");
    reveal_strlit("bitrate");
    reveal_strlit("bitrate=");
    reveal_strlit("gop-size");
    reveal_strlit("gop-size=120");
    reveal_strlit("key-int-max");
    reveal_strlit("key-int-max=120");
    reveal_strlit("speed-preset");
    reveal_strlit("veryfast");
    reveal_strlit("speed-preset=veryfast");
    reveal_strlit("tune");
    reveal_strlit("zerolatency");
    reveal_strlit("tune=zerolatency");
    let all = assignments(encoder.all_properties(kbps));
    assert("bitrate"@ + "="@ =~= "bitrate="@);
    assert("gop-size"@ + "="@ + "120"@ =~= "gop-size=120"@);
    assert("key-int-max"@ + "="@ + "120"@ =~= "key-int-max=120"@);
    assert("speed-preset"@ + "="@ + "veryfast"@ =~= "speed-preset=veryfast"@);
    assert("tune"@ + "="@ + "zerolatency"@ =~= "tune=zerolatency"@);
    assert(all[0] == "bitrate="@ + decimal(kbps));
    assert(encoder.launch_tokens(kbps) =~= seq![encoder.element_text()] + all);
}

} // verus!
