//! The microphones that can be recorded from.
//!
//! The identifier of a microphone is what the pipeline takes: the serial of a `PipeWire` node, or
//! the whole `device="…"` token of a WASAPI source.

use vstd::prelude::*;
use vstd::utf8::{decode_utf8, valid_utf8};

use crate::json::{
    held, is_text, json_items, json_views, member_of, parse_items, text_of, unsigned_of, Json,
    JsonView,
};
use crate::lossy::{lossy_text, read_text};
use crate::scan::{
    contains, contains_text, find, first_match, lines, occurs_at, slice_views, split_at_first,
    split_lines, split_once, starts_with,
};
use crate::text::{
    chars_of, count_span_back, decimal, lemma_span_back, lemma_span_back_is, skip, span_back,
    string_of, take, trim, trimmed, with_number, Class,
};
use crate::text_laws::{law_first_match, law_split_at_first};

verus! {

/// A microphone.
pub struct Mic {
    /// What the pipeline is given.
    pub id: String,
    /// What the user reads.
    pub label: String,
}

/// The mathematical reading of a microphone.
pub struct MicView {
    pub id: Seq<char>,
    pub label: Seq<char>,
}

impl View for Mic {
    type V = MicView;

    open spec fn view(&self) -> MicView {
        MicView { id: self.id@, label: self.label@ }
    }
}

/// The readings of a list of microphones.
pub open spec fn mic_views(mics: Seq<Mic>) -> Seq<MicView> {
    Seq::new(mics.len(), |i: int| mics[i]@)
}

impl Clone for Mic {
    fn clone(&self) -> (r: Self)
        ensures
            r@ == self@,
    {
        Mic { id: self.id.clone(), label: self.label.clone() }
    }
}

/// Whether a `PipeWire` object is a node.
pub open spec fn is_node(object: JsonView) -> bool {
    object.member("type"@).is_text("PipeWire:Interface:Node"@)
}

/// The properties of a `PipeWire` object.
pub open spec fn props_of(object: JsonView) -> JsonView {
    object.member("info"@).member("props"@)
}

/// How a source is called: by its description, else its nickname, else its name.
pub open spec fn source_label(props: JsonView) -> Seq<char> {
    match props.member("node.description"@).text() {
        Some(label) => label,
        None => match props.member("node.nick"@).text() {
            Some(label) => label,
            None => match props.member("node.name"@).text() {
                Some(label) => label,
                None => "Source audio"@,
            },
        },
    }
}

/// The microphone that a `PipeWire` object is: a node of class `Audio/Source` with a serial.
pub open spec fn source_of(object: JsonView) -> Option<MicView> {
    let props = props_of(object);
    let serial = props.member("object.serial"@).unsigned();
    if is_node(object) && props.member("media.class"@).is_text("Audio/Source"@) && serial is Some {
        Some(MicView { id: decimal(serial->0 as nat), label: source_label(props) })
    } else {
        None
    }
}

/// The microphones among `PipeWire` objects, in order.
pub open spec fn sources(objects: Seq<JsonView>) -> Seq<MicView>
    decreases objects.len(),
{
    if objects.len() == 0 {
        seq![]
    } else {
        match source_of(objects.last()) {
            Some(mic) => sources(objects.drop_last()).push(mic),
            None => sources(objects.drop_last()),
        }
    }
}

fn find_label(props: Option<&Json>) -> (r: String)
    ensures
        r@ == source_label(held(props)),
{
    match text_of(member_of(props, "node.description")) {
        Some(label) => label.to_owned(),
        None => match text_of(member_of(props, "node.nick")) {
            Some(label) => label.to_owned(),
            None => match text_of(member_of(props, "node.name")) {
                Some(label) => label.to_owned(),
                None => "Source audio".to_owned(),
            },
        },
    }
}

fn find_source(object: &Json) -> (r: Option<Mic>)
    ensures
        match r {
            Some(mic) => source_of(object@) == Some(mic@),
            None => source_of(object@) is None,
        },
{
    if !is_text(object.get("type"), "PipeWire:Interface:Node") {
        return None;
    }
    let props = member_of(object.get("info"), "props");
    if !is_text(member_of(props, "media.class"), "Audio/Source") {
        return None;
    }
    match unsigned_of(member_of(props, "object.serial")) {
        Some(serial) => {
            let id = with_number("", serial);
            proof {
                reveal_strlit("");
                assert(id@ =~= decimal(serial as nat));
            }
            Some(Mic { id, label: find_label(props) })
        },
        None => None,
    }
}

/// Picks the microphones out of what `pw-dump` lists.
pub fn parse_pw_sources(objects: &[Json]) -> (mics: Vec<Mic>)
    ensures
        mic_views(mics@) == sources(json_views(objects@)),
{
    let mut mics: Vec<Mic> = Vec::new();
    let ghost all = json_views(objects@);
    let mut i: usize = 0;
    assert(mic_views(mics@) =~= sources(all.take(0)));
    while i < objects.len()
        invariant
            i <= objects@.len(),
            all == json_views(objects@),
            mic_views(mics@) == sources(all.take(i as int)),
        decreases objects@.len() - i,
    {
        let ghost before = mics@;
        assert(all.take(i + 1).drop_last() =~= all.take(i as int));
        if let Some(mic) = find_source(&objects[i]) {
            mics.push(mic);
            assert(mic_views(mics@) =~= mic_views(before).push(mic@));
        }
        i += 1;
    }
    assert(all.take(i as int) =~= all);
    mics
}

/// Lists the microphones in what `pw-dump` printed; none where it is unreadable.
pub fn list(dump: &[u8]) -> (mics: Vec<Mic>)
    ensures
        mic_views(mics@) == match json_items(dump@) {
            Ok(objects) => sources(objects),
            Err(_) => seq![],
        },
{
    match parse_items(dump) {
        Ok(objects) => parse_pw_sources(objects.as_slice()),
        Err(_) => {
            let mics: Vec<Mic> = Vec::new();
            assert(mic_views(mics@) =~= seq![]);
            mics
        },
    }
}

/// Whether a quote that is not escaped stands at position `i`: the backslashes right before it
/// escape one another in pairs, and none is left for it.
pub open spec fn closes(line: Seq<char>, i: int) -> bool {
    line[i] == '"' && span_back(line.take(i), Class::Only('\\')) % 2 == 0
}

/// Where the first quote that is not escaped stands, from position `from` on.
pub open spec fn closing(line: Seq<char>, from: int) -> Option<int>
    decreases line.len() - from,
{
    if from >= line.len() {
        None
    } else if closes(line, from) {
        Some(from)
    } else {
        closing(line, from + 1)
    }
}

/// The token `device="…"` of a suggested launch line, up to the first quote that is not escaped.
pub open spec fn device_token(line: Seq<char>) -> Option<Seq<char>> {
    match first_match(line, "device=\""@, 0) {
        Some(start) => match closing(line, start + "device=\""@.len()) {
            Some(end) => Some(line.subrange(start, end + 1)),
            None => None,
        },
        None => None,
    }
}

/// Isolates the token `device="…"` of a suggested launch line.
pub fn extract_device_token(line: &[char]) -> (r: Option<String>)
    ensures
        match r {
            Some(token) => device_token(line@) == Some(token@),
            None => device_token(line@) is None,
        },
{
    let opening = chars_of("device=\"");
    proof {
        reveal_strlit("device=\"");
    }
    match find(line, opening.as_slice()) {
        Some(start) => {
            let len: usize = line.len();
            let from: usize = start + opening.len();
            let mut i: usize = from;
            while i < len
                invariant
                    0 < from <= i <= len,
                    len == line@.len(),
                    closing(line@, from as int) == closing(line@, i as int),
                    start < from,
                    first_match(line@, "device=\""@, 0) == Some(start as int),
                    from == start + "device=\""@.len(),
                decreases len - i,
            {
                if line[i] == '"' && count_span_back(take(line, i), Class::Only('\\')) % 2 == 0 {
                    let token = vstd::slice::slice_subrange(line, start, i + 1);
                    return Some(string_of(token));
                }
                i += 1;
            }
            None
        },
        None => None,
    }
}

/// What has been read of a device listing: the label of the device at hand, and the microphones.
pub struct MonitorView {
    pub label: Option<Seq<char>>,
    pub mics: Seq<MicView>,
}

/// The label that a line of a device listing gives, if it gives one.
pub open spec fn label_line(line: Seq<char>) -> Option<Seq<char>> {
    if "name"@.is_prefix_of(line) {
        match split_at_first(line.skip("name"@.len() as int), ':') {
            Some((_, value)) => Some(trimmed(value)),
            None => None,
        }
    } else {
        None
    }
}

/// The source that a line of a device listing gives, if it gives one.
pub open spec fn launch_line(line: Seq<char>) -> Option<Seq<char>> {
    if "gst-launch-1.0"@.is_prefix_of(line) && contains_text(line, "wasapi2src"@) {
        device_token(line)
    } else {
        None
    }
}

/// What is known after one more line: a source takes the label that was read before it, once.
pub open spec fn monitor_step(state: MonitorView, line: Seq<char>) -> MonitorView {
    let line = trimmed(line);
    let label = match label_line(line) {
        Some(label) => Some(label),
        None => state.label,
    };
    match launch_line(line) {
        Some(id) => MonitorView {
            label: None,
            mics: state.mics.push(
                MicView {
                    id,
                    label: match label {
                        Some(label) => label,
                        None => "Micro"@,
                    },
                },
            ),
        },
        None => MonitorView { label, mics: state.mics },
    }
}

/// What is known after some lines.
pub open spec fn monitored(lines: Seq<Seq<char>>) -> MonitorView
    decreases lines.len(),
{
    if lines.len() == 0 {
        MonitorView { label: None, mics: seq![] }
    } else {
        monitor_step(monitored(lines.drop_last()), lines.last())
    }
}

fn find_label_line(line: &[char]) -> (r: Option<String>)
    ensures
        match r {
            Some(label) => label_line(line@) == Some(label@),
            None => label_line(line@) is None,
        },
{
    let name = chars_of("name");
    if !starts_with(line, name.as_slice()) {
        return None;
    }
    match split_once(skip(line, name.len()), ':') {
        Some((_, value)) => Some(string_of(trim(value))),
        None => None,
    }
}

fn find_launch_line(line: &[char]) -> (r: Option<String>)
    ensures
        match r {
            Some(id) => launch_line(line@) == Some(id@),
            None => launch_line(line@) is None,
        },
{
    if starts_with(line, chars_of("gst-launch-1.0").as_slice()) && contains(
        line,
        chars_of("wasapi2src").as_slice(),
    ) {
        extract_device_token(line)
    } else {
        None
    }
}

/// Lists the microphones, given the raw output of `gst-device-monitor-1.0`.
pub fn list_devices(stdout: &[u8]) -> (mics: Vec<Mic>)
    ensures
        mic_views(mics@) == monitored(lines(lossy_text(stdout@))).mics,
        valid_utf8(stdout@) ==> mic_views(mics@) == monitored(lines(decode_utf8(stdout@))).mics,
{
    parse_device_monitor(read_text(stdout).as_str())
}

/// Picks the microphones out of what `gst-device-monitor-1.0` prints.
pub fn parse_device_monitor(text: &str) -> (mics: Vec<Mic>)
    ensures
        mic_views(mics@) == monitored(lines(text@)).mics,
{
    let chars = chars_of(text);
    let all = split_lines(chars.as_slice());
    let ghost views = slice_views(all@);
    let mut mics: Vec<Mic> = Vec::new();
    let mut label: Option<String> = None;
    let mut i: usize = 0;
    assert(mic_views(mics@) =~= monitored(views.take(0)).mics);
    while i < all.len()
        invariant
            i <= all@.len(),
            views == slice_views(all@),
            mic_views(mics@) == monitored(views.take(i as int)).mics,
            match label {
                Some(l) => monitored(views.take(i as int)).label == Some(l@),
                None => monitored(views.take(i as int)).label is None,
            },
        decreases all@.len() - i,
    {
        let ghost before = mics@;
        assert(views.take(i + 1).drop_last() =~= views.take(i as int));
        let line = trim(all[i]);
        if let Some(l) = find_label_line(line) {
            label = Some(l);
        }
        if let Some(id) = find_launch_line(line) {
            let own = match label {
                Some(l) => l,
                None => "Micro".to_owned(),
            };
            label = None;
            let mic = Mic { id, label: own };
            mics.push(mic);
            assert(mic_views(mics@) =~= mic_views(before).push(mic@));
        }
        i += 1;
    }
    assert(views.take(i as int) =~= views);
    mics
}

/// Every microphone that is listed is a source of sound in the graph, and every source of sound
/// with a serial is listed.
pub proof fn law_sources_are_listed(objects: Seq<JsonView>)
    ensures
        forall|k: int|
            0 <= k < sources(objects).len() ==> exists|i: int|
                0 <= i < objects.len() && #[trigger] source_of(objects[i]) == Some(
                    #[trigger] sources(objects)[k],
                ),
        forall|i: int|
            0 <= i < objects.len() && (#[trigger] source_of(objects[i])) is Some ==> sources(
                objects,
            ).contains(source_of(objects[i])->0),
    decreases objects.len(),
{
    if objects.len() > 0 {
        let before = objects.drop_last();
        let all = sources(objects);
        law_sources_are_listed(before);
        assert forall|k: int| 0 <= k < all.len() implies exists|i: int|
            0 <= i < objects.len() && #[trigger] source_of(objects[i]) == Some(
                #[trigger] all[k],
            ) by {
            if k < sources(before).len() {
                assert(all[k] == sources(before)[k]);
                let i = choose|i: int|
                    0 <= i < before.len() && #[trigger] source_of(before[i]) == Some(
                        sources(before)[k],
                    );
                assert(objects[i] == before[i]);
            } else {
                assert(source_of(objects[objects.len() - 1]) == Some(all[k]));
            }
        }
        assert forall|i: int|
            0 <= i < objects.len() && (
            #[trigger] source_of(objects[i])) is Some implies all.contains(
            source_of(objects[i])->0,
        ) by {
            if i < before.len() {
                assert(objects[i] == before[i]);
                let mic = source_of(before[i])->0;
                let k = choose|k: int| 0 <= k < sources(before).len() && sources(before)[k] == mic;
                assert(all[k] == mic);
            } else {
                assert(all[all.len() - 1] == source_of(objects[i])->0);
            }
        }
    }
}

proof fn lemma_closing(line: Seq<char>, from: int)
    ensures
        closing(line, from) matches Some(end) ==> from <= end < line.len() && closes(line, end),
        closing(line, from) matches Some(end) ==> forall|i: int|
            from <= i < end ==> !#[trigger] closes(line, i),
    decreases line.len() - from,
{
    if from < line.len() && !closes(line, from) {
        lemma_closing(line, from + 1);
    }
}

/// A device token begins with `device="`, ends with a quote, and has no other quote in between
/// that is not escaped.
pub proof fn law_device_token_is_quoted(line: Seq<char>, token: Seq<char>)
    requires
        device_token(line) == Some(token),
    ensures
        "device=\""@.is_prefix_of(token),
        token.len() > "device=\""@.len(),
        token.last() == '"',
        forall|i: int|
            "device=\""@.len() <= i < token.len() - 1 ==> !#[trigger] closes(token, i),
{
    reveal_strlit("device=\"");
    let opening = "device=\""@;
    let start = first_match(line, opening, 0)->0;
    crate::scan::lemma_first_match(line, opening, 0);
    let from = start + opening.len();
    lemma_closing(line, from);
    let end = closing(line, from)->0;
    assert(token == line.subrange(start, end + 1));
    assert(token.subrange(0, opening.len() as int) =~= line.subrange(start, from));
    assert forall|i: int| opening.len() <= i < token.len() - 1 implies !#[trigger] closes(
        token,
        i,
    ) by {
        let class = Class::Only('\\');
        let before = line.take(start + i);
        let own = token.take(i);
        lemma_span_back(before, class);
        let k = span_back(before, class) as int;
        if k > i - opening.len() {
            assert(class.has(before[from - 1]));
            assert(line.subrange(start, from)[opening.len() - 1] == line[from - 1]);
        }
        assert forall|j: int| i - k <= j < i implies class.has(#[trigger] own[j]) by {
            assert(own[j] == before[start + j]);
        }
        assert(own[i - k - 1] == before[start + i - k - 1]);
        lemma_span_back_is(own, class, i - k);
        assert(!closes(line, start + i));
    }
}

/// A microphone is a node of class `Audio/Source` with a serial. It is known by that serial, in
/// decimal, and called by its description, else its nickname, else its name.
pub proof fn law_what_a_source_is(object: JsonView)
    ensures
        ({
            let props = object.member("info"@).member("props"@);
            let serial = props.member("object.serial"@);
            let description = props.member("node.description"@);
            let nick = props.member("node.nick"@);
            let name = props.member("node.name"@);
            &&& source_of(object) is Some <==> {
                &&& object.member("type"@) == JsonView::Text("PipeWire:Interface:Node"@)
                &&& props.member("media.class"@) == JsonView::Text("Audio/Source"@)
                &&& serial matches JsonView::Number(Some(_))
            }
            &&& source_of(object) matches Some(mic) ==> {
                &&& serial matches JsonView::Number(Some(n)) && mic.id == decimal(n as nat)
                &&& description is Text ==> description == JsonView::Text(mic.label)
                &&& description !is Text && nick is Text ==> nick == JsonView::Text(mic.label)
                &&& description !is Text && nick !is Text && name is Text ==> name
                    == JsonView::Text(mic.label)
                &&& description !is Text && nick !is Text && name !is Text ==> mic.label
                    == "Source audio"@
            }
        }),
{
}

/// Every object is looked at, in order: the microphones of two lists, one after the other, are
/// those of each.
pub proof fn law_sources_join(a: Seq<JsonView>, b: Seq<JsonView>)
    ensures
        sources(a + b) == sources(a) + sources(b),
    decreases b.len(),
{
    if b.len() == 0 {
        assert(a + b =~= a);
        assert(sources(a) + sources(b) =~= sources(a));
    } else {
        law_sources_join(a, b.drop_last());
        assert((a + b).drop_last() =~= a + b.drop_last());
        assert(sources(a + b) =~= sources(a) + sources(b));
    }
}

/// One object gives the microphone that it is, or none.
pub proof fn law_single_source(object: JsonView)
    ensures
        sources(seq![object]) == match source_of(object) {
            Some(mic) => seq![mic],
            None => seq![],
        },
{
    reveal_with_fuel(sources, 2);
    assert(seq![object].drop_last() =~= seq![]);
    assert(sources(seq![object]) =~= match source_of(object) {
        Some(mic) => seq![mic],
        None => seq![],
    });
}

/// A line that begins with `name` gives a label: what follows its first colon, without the white
/// space around it. No other line does, nor one without a colon.
pub proof fn law_label_lines(gap: Seq<char>, value: Seq<char>, other: Seq<char>)
    requires
        !gap.contains(':'),
        !"name"@.is_prefix_of(other),
    ensures
        label_line("name"@ + gap + seq![':'] + value) == Some(trimmed(value)),
        label_line("name"@ + gap) is None,
        label_line(other) is None,
{
    let n = "name"@.len() as int;
    let line = "name"@ + gap + seq![':'] + value;
    assert(line.subrange(0, n) =~= "name"@);
    assert(line.skip(n) =~= gap + seq![':'] + value);
    assert(("name"@ + gap).subrange(0, n) =~= "name"@);
    assert(("name"@ + gap).skip(n) =~= gap);
    law_split_at_first(gap, ':', value);
}

/// A line gives a source where it begins with `gst-launch-1.0`, names `wasapi2src` and holds a
/// device token.
pub proof fn law_launch_lines(line: Seq<char>)
    ensures
        launch_line(line) is Some <==> {
            &&& "gst-launch-1.0"@.is_prefix_of(line)
            &&& exists|i: int| occurs_at(line, "wasapi2src"@, i)
            &&& device_token(line) is Some
        },
        launch_line(line) is Some ==> launch_line(line) == device_token(line),
{
}

/// The device token runs from the first `device="` to the next quote.
pub proof fn law_device_token_is_found(before: Seq<char>, inside: Seq<char>, after: Seq<char>)
    requires
        !inside.contains('"'),
        inside.len() > 0 ==> inside.last() != '\\',
        forall|j: int|
            0 <= j < before.len() ==> !#[trigger] occurs_at(
                before + "device=\""@ + inside + seq!['"'] + after,
                "device=\""@,
                j,
            ),
    ensures
        device_token(before + "device=\""@ + inside + seq!['"'] + after) == Some(
            "device=\""@ + inside + seq!['"'],
        ),
{
    reveal_strlit("device=\"");
    let opening = "device=\""@;
    let line = before + opening + inside + seq!['"'] + after;
    let start = before.len() as int;
    assert(line.subrange(start, start + opening.len()) =~= opening);
    assert(occurs_at(line, opening, start));
    law_first_match(line, opening, start);
    let from = start + opening.len();
    let end = from + inside.len();
    assert(line[end] == '"');
    let head = line.take(end);
    assert(head.last() == if inside.len() > 0 {
        inside.last()
    } else {
        '"'
    });
    lemma_span_back_is(head, Class::Only('\\'), end);
    assert(closes(line, end));
    assert(line.subrange(from, end) =~= inside);
    lemma_closing_is(line, from, end, inside);
    assert(line.subrange(start, end + 1) =~= opening + inside + seq!['"']);
}

proof fn lemma_closing_is(line: Seq<char>, from: int, end: int, inside: Seq<char>)
    requires
        0 <= from <= end < line.len(),
        line.subrange(from, end) == inside,
        !inside.contains('"'),
        closes(line, end),
    ensures
        closing(line, from) == Some(end),
    decreases end - from,
{
    if from < end {
        assert(inside[0] == line[from]);
        assert(inside.contains(line[from]));
        let rest = inside.drop_first();
        assert(line.subrange(from + 1, end) =~= rest);
        assert(!rest.contains('"')) by {
            if rest.contains('"') {
                let i = choose|i: int| 0 <= i < rest.len() && rest[i] == '"';
                assert(inside[i + 1] == '"');
            }
        }
        lemma_closing_is(line, from + 1, end, rest);
    }
}

/// A label waits for the source that follows it, and is used once; a later label takes its place.
/// A source without a label is called `Micro`. Lines that give neither change nothing.
pub proof fn law_labels_wait_for_their_source(read: Seq<Seq<char>>, line: Seq<char>)
    ensures
        ({
            let before = monitored(read);
            let after = monitored(read.push(line));
            let label = match label_line(trimmed(line)) {
                Some(l) => Some(l),
                None => before.label,
            };
            match launch_line(trimmed(line)) {
                None => after.mics == before.mics && after.label == label,
                Some(id) => {
                    &&& after.label is None
                    &&& after.mics.len() == before.mics.len() + 1
                    &&& after.mics.drop_last() == before.mics
                    &&& after.mics.last().id == id
                    &&& after.mics.last().label == match label {
                        Some(l) => l,
                        None => "Micro"@,
                    }
                },
            }
        }),
        monitored(seq![]).label is None,
        monitored(seq![]).mics.len() == 0,
{
    assert(read.push(line).drop_last() =~= read);
    assert(read.push(line).last() == line);
    let before = monitored(read);
    let after = monitored(read.push(line));
    if let Some(id) = launch_line(trimmed(line)) {
        assert(after.mics.drop_last() =~= before.mics);
    }
}

/// Where a quoted text ends, read from left to right: at the first quote, with a backslash taking
/// whatever follows it along.
pub open spec fn quote_end(line: Seq<char>, from: int) -> Option<int>
    decreases line.len() + 1 - from,
{
    if from >= line.len() {
        None
    } else if line[from] == '"' {
        Some(from)
    } else if line[from] == '\\' {
        quote_end(line, from + 2)
    } else {
        quote_end(line, from + 1)
    }
}

/// A device token ends where a reader ends who goes from left to right and takes every backslash
/// together with what follows it.
pub proof fn law_escapes_are_read_from_the_left(line: Seq<char>, from: int)
    requires
        0 < from,
        from <= line.len() ==> line[from - 1] != '\\',
    ensures
        closing(line, from) == quote_end(line, from),
{
    if from < line.len() {
        lemma_span_back_is(line.take(from), Class::Only('\\'), from);
    }
    lemma_escapes(line, from);
}

proof fn lemma_escapes(line: Seq<char>, from: int)
    requires
        0 < from,
        from < line.len() ==> span_back(line.take(from), Class::Only('\\')) % 2 == 0,
    ensures
        closing(line, from) == quote_end(line, from),
    decreases line.len() + 1 - from,
{
    let class = Class::Only('\\');
    if from < line.len() {
        let head = line.take(from);
        let next = line.take(from + 1);
        assert(next.drop_last() =~= head);
        assert(next.last() == line[from]);
        if line[from] == '\\' {
            if from + 1 < line.len() {
                let after = line.take(from + 2);
                assert(after.drop_last() =~= next);
                assert(after.last() == line[from + 1]);
                assert(span_back(next, class) == 1 + span_back(head, class));
                assert(!closes(line, from + 1));
                assert(span_back(after, class) % 2 == 0);
            }
            lemma_escapes(line, from + 2);
            assert(!closes(line, from));
            if from + 1 >= line.len() {
                assert(closing(line, from + 1) is None);
            }
        } else if line[from] != '"' {
            assert(span_back(next, class) == 0);
            lemma_escapes(line, from + 1);
        }
    }
}

/// What is listed is read one by one, in order.
pub proof fn law_mics_are_read(mics: Seq<Mic>, i: int)
    requires
        0 <= i < mics.len(),
    ensures
        mic_views(mics).len() == mics.len(),
        mic_views(mics)[i].id == mics[i].id@,
        mic_views(mics)[i].label == mics[i].label@,
{
}

} // verus!
