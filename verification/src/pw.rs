//! The voice state of Discord as the `PipeWire` graph shows it.
//!
//! In a voice channel Discord has a `Stream/Input/Audio` node, which captures the microphone and
//! runs only there, and a `Stream/Output/Audio` node, which plays the other participants.

use vstd::prelude::*;

use crate::json::{
    is_text, json_items, json_views, member_of, parse_items, text_of, unsigned_of, Json, JsonView,
};
use crate::mics::{is_node, props_of};
use crate::scan::{contains, contains_text, lowered, to_lower};
use crate::text::{chars_of, concat2};

verus! {

/// What the graph says of Discord.
#[derive(Debug, Clone, Copy, PartialEq, Eq, Structural)]
pub struct Snapshot {
    /// Whether Discord captures the microphone.
    pub in_voice: bool,
    /// The serial of the node to record the other participants from.
    pub discord_out_serial: Option<u64>,
}

impl Default for Snapshot {
    fn default() -> (r: Self)
        ensures
            r == (Snapshot { in_voice: false, discord_out_serial: None }),
    {
        Snapshot { in_voice: false, discord_out_serial: None }
    }
}

/// Why the graph could not be read.
pub enum PwError {
    /// `pw-dump` reported a failure.
    Failed,
    /// What it printed is no JSON array; with the reason.
    Unreadable(String),
}

impl PwError {
    /// What the user is told.
    pub open spec fn text(self) -> Seq<char> {
        match self {
            PwError::Failed => "pw-dump a retourné une erreur"@,
            PwError::Unreadable(reason) => "sortie pw-dump illisible: "@ + reason@,
        }
    }

    /// What the user is told.
    pub fn message(&self) -> (r: String)
        ensures
            r@ == self.text(),
    {
        match self {
            PwError::Failed => "pw-dump a retourné une erreur".to_owned(),
            PwError::Unreadable(reason) => concat2("sortie pw-dump illisible: ", reason.as_str()),
        }
    }
}

/// Whether an object is a node of a Discord process.
pub open spec fn of_discord(object: JsonView) -> bool {
    is_node(object) && match props_of(object).member("application.process.binary"@).text() {
        Some(binary) => contains_text(lowered(binary), "discord"@),
        None => false,
    }
}

/// Whether a node is running.
pub open spec fn running(object: JsonView) -> bool {
    object.member("info"@).member("state"@).is_text("running"@)
}

/// Whether a node is of the given media class.
pub open spec fn of_class(object: JsonView, class: Seq<char>) -> bool {
    props_of(object).member("media.class"@).is_text(class)
}

/// Whether Discord captures the microphone through this node.
pub open spec fn captures(object: JsonView) -> bool {
    of_discord(object) && of_class(object, "Stream/Input/Audio"@) && running(object)
}

/// Whether Discord plays through this node.
pub open spec fn plays(object: JsonView) -> bool {
    of_discord(object) && of_class(object, "Stream/Output/Audio"@)
}

/// The last running node that Discord plays through.
pub open spec fn last_running(objects: Seq<JsonView>) -> Option<JsonView>
    decreases objects.len(),
{
    if objects.len() == 0 {
        None
    } else if plays(objects.last()) && running(objects.last()) {
        Some(objects.last())
    } else {
        last_running(objects.drop_last())
    }
}

/// The first node that Discord plays through, running or not.
pub open spec fn first_playing(objects: Seq<JsonView>) -> Option<JsonView>
    decreases objects.len(),
{
    if objects.len() == 0 {
        None
    } else {
        match first_playing(objects.drop_last()) {
            Some(object) => Some(object),
            None => if plays(objects.last()) {
                Some(objects.last())
            } else {
                None
            },
        }
    }
}

/// The node to record the other participants from: the last that runs; without one, the first
/// that was found.
pub open spec fn playing(objects: Seq<JsonView>) -> Option<JsonView> {
    match last_running(objects) {
        Some(object) => Some(object),
        None => first_playing(objects),
    }
}

/// The serial of that node.
pub open spec fn playing_serial(objects: Seq<JsonView>) -> Option<u64> {
    match playing(objects) {
        Some(object) => props_of(object).member("object.serial"@).unsigned(),
        None => None,
    }
}

/// What the objects of the graph say of Discord.
pub open spec fn snapshot_of(objects: Seq<JsonView>) -> Snapshot {
    Snapshot {
        in_voice: exists|i: int| 0 <= i < objects.len() && captures(#[trigger] objects[i]),
        discord_out_serial: playing_serial(objects),
    }
}

fn belongs_to_discord(object: &Json) -> (r: bool)
    ensures
        r == of_discord(object@),
{
    if !is_text(object.get("type"), "PipeWire:Interface:Node") {
        return false;
    }
    let props = member_of(object.get("info"), "props");
    match text_of(member_of(props, "application.process.binary")) {
        Some(binary) => {
            let low = to_lower(chars_of(binary).as_slice());
            contains(low.as_slice(), chars_of("discord").as_slice())
        },
        None => false,
    }
}

/// Reads the voice state out of what `pw-dump` lists.
pub fn read_objects(objects: &[Json]) -> (snap: Snapshot)
    ensures
        snap == snapshot_of(json_views(objects@)),
{
    let ghost all = json_views(objects@);
    let mut snap = Snapshot::default();
    let mut found = false;
    let mut i: usize = 0;
    while i < objects.len()
        invariant
            i <= objects@.len(),
            all == json_views(objects@),
            snap == snapshot_of(all.take(i as int)),
            found == (first_playing(all.take(i as int)) is Some),
            last_running(all.take(i as int)) is Some ==> found,
        decreases objects@.len() - i,
    {
        let object = &objects[i];
        let ghost seen = all.take(i as int);
        let ghost next = all.take(i + 1);
        proof {
            assert(next.drop_last() =~= seen);
            assert(next.last() == object@);
            assert forall|k: int| 0 <= k < i implies #[trigger] next[k] == seen[k] by {}
            assert(snapshot_of(next).in_voice == (snapshot_of(seen).in_voice || captures(
                object@,
            ))) by {
                if snapshot_of(seen).in_voice {
                    let k = choose|k: int| 0 <= k < seen.len() && captures(#[trigger] seen[k]);
                    assert(captures(next[k]));
                }
                if captures(object@) {
                    assert(captures(next[i as int]));
                }
                if snapshot_of(next).in_voice && !captures(object@) {
                    let k = choose|k: int| 0 <= k < next.len() && captures(#[trigger] next[k]);
                    assert(captures(seen[k]));
                }
            }
        }
        if belongs_to_discord(object) {
            let info = object.get("info");
            let props = member_of(info, "props");
            let live = is_text(member_of(info, "state"), "running");
            let class = member_of(props, "media.class");
            proof {
                reveal_strlit("Stream/Input/Audio");
                reveal_strlit("Stream/Output/Audio");
                assert("Stream/Input/Audio"@.len() != "Stream/Output/Audio"@.len());
            }
            if is_text(class, "Stream/Input/Audio") {
                if live {
                    snap.in_voice = true;
                }
            } else if is_text(class, "Stream/Output/Audio") {
                if live || !found {
                    snap.discord_out_serial = unsigned_of(member_of(props, "object.serial"));
                }
                found = true;
            }
        }
        i += 1;
    }
    assert(all.take(i as int) =~= all);
    snap
}

/// Reads the voice state out of what `pw-dump` printed.
pub fn snapshot(success: bool, dump: &[u8]) -> (r: Result<Snapshot, PwError>)
    ensures
        match r {
            Ok(snap) => success && json_items(dump@) is Ok && snap == snapshot_of(
                json_items(dump@)->Ok_0,
            ),
            Err(PwError::Failed) => !success,
            Err(PwError::Unreadable(reason)) => success && json_items(dump@) == Err::<
                Seq<JsonView>,
                Seq<char>,
            >(reason@),
        },
{
    if !success {
        return Err(PwError::Failed);
    }
    match parse_items(dump) {
        Ok(objects) => Ok(read_objects(objects.as_slice())),
        Err(reason) => Err(PwError::Unreadable(reason)),
    }
}

/// The node that is recorded from is one that Discord plays through; a running one wherever there
/// is one; else the first of all.
pub proof fn law_running_is_preferred(objects: Seq<JsonView>)
    ensures
        playing(objects) matches Some(object) ==> plays(object) && objects.contains(object),
        (exists|i: int|
            0 <= i < objects.len() && plays(#[trigger] objects[i]) && running(objects[i])) ==> (
        playing(objects) matches Some(object) && running(object)),
        (exists|i: int| 0 <= i < objects.len() && plays(#[trigger] objects[i])) ==> playing(
            objects,
        ) is Some,
{
    lemma_last_running(objects);
    lemma_first_playing(objects);
}

/// Where none runs, the first node that Discord plays through is the one.
pub proof fn law_first_idle_is_kept(objects: Seq<JsonView>, i: int)
    requires
        0 <= i < objects.len(),
        plays(objects[i]),
        forall|k: int| 0 <= k < i ==> !plays(#[trigger] objects[k]),
        forall|k: int|
            0 <= k < objects.len() ==> !(plays(#[trigger] objects[k]) && running(objects[k])),
    ensures
        playing(objects) == Some(objects[i]),
    decreases objects.len(),
{
    lemma_last_running(objects);
    if let Some(object) = last_running(objects) {
        let k = choose|k: int| 0 <= k < objects.len() && objects[k] == object;
        assert(plays(objects[k]));
    }
    let before = objects.drop_last();
    assert forall|k: int| 0 <= k < before.len() implies #[trigger] before[k] == objects[k] by {}
    if i < before.len() {
        lemma_last_running(before);
        if let Some(object) = last_running(before) {
            let k = choose|k: int| 0 <= k < before.len() && before[k] == object;
            assert(plays(objects[k]));
        }
        law_first_idle_is_kept(before, i);
    } else {
        lemma_first_playing(before);
        if let Some(object) = first_playing(before) {
            let k = choose|k: int| 0 <= k < before.len() && before[k] == object;
            assert(plays(objects[k]));
        }
    }
}

proof fn lemma_last_running(objects: Seq<JsonView>)
    ensures
        match last_running(objects) {
            Some(object) => plays(object) && running(object) && objects.contains(object),
            None => forall|i: int|
                0 <= i < objects.len() ==> !(plays(#[trigger] objects[i]) && running(objects[i])),
        },
    decreases objects.len(),
{
    if objects.len() > 0 {
        let before = objects.drop_last();
        lemma_last_running(before);
        if plays(objects.last()) && running(objects.last()) {
            assert(objects[objects.len() - 1] == objects.last());
        } else if let Some(object) = last_running(before) {
            let k = choose|k: int| 0 <= k < before.len() && before[k] == object;
            assert(objects[k] == object);
        } else {
            assert forall|i: int| 0 <= i < objects.len() implies !(plays(#[trigger] objects[i])
                && running(objects[i])) by {
                if i < before.len() {
                    assert(objects[i] == before[i]);
                }
            }
        }
    }
}

proof fn lemma_first_playing(objects: Seq<JsonView>)
    ensures
        match first_playing(objects) {
            Some(object) => plays(object) && objects.contains(object),
            None => forall|i: int| 0 <= i < objects.len() ==> !plays(#[trigger] objects[i]),
        },
    decreases objects.len(),
{
    if objects.len() > 0 {
        let before = objects.drop_last();
        lemma_first_playing(before);
        if let Some(object) = first_playing(before) {
            let k = choose|k: int| 0 <= k < before.len() && before[k] == object;
            assert(objects[k] == object);
        } else if plays(objects.last()) {
            assert(objects[objects.len() - 1] == objects.last());
        } else {
            assert forall|i: int| 0 <= i < objects.len() implies !plays(#[trigger] objects[i]) by {
                if i < before.len() {
                    assert(objects[i] == before[i]);
                }
            }
        }
    }
}

/// Discord captures the microphone through a node of class `Stream/Input/Audio` that is running
/// and belongs to a program whose name holds `discord`, in whatever case. It plays through a node
/// of class `Stream/Output/Audio`, running or not.
pub proof fn law_nodes_of_discord(object: JsonView)
    ensures
        ({
            let props = object.member("info"@).member("props"@);
            let own = object.member("type"@) == JsonView::Text("PipeWire:Interface:Node"@) && (
            props.member("application.process.binary"@) matches JsonView::Text(binary)
                && contains_text(lowered(binary), "discord"@));
            &&& captures(object) <==> own && props.member("media.class"@) == JsonView::Text(
                "Stream/Input/Audio"@,
            ) && object.member("info"@).member("state"@) == JsonView::Text("running"@)
            &&& plays(object) <==> own && props.member("media.class"@) == JsonView::Text(
                "Stream/Output/Audio"@,
            )
            &&& running(object) <==> object.member("info"@).member("state"@) == JsonView::Text(
                "running"@,
            )
        }),
{
}

/// Discord is in a voice channel exactly where it captures the microphone through some node.
pub proof fn law_voice_is_a_capture(objects: Seq<JsonView>)
    ensures
        snapshot_of(objects).in_voice <==> exists|i: int|
            0 <= i < objects.len() && captures(#[trigger] objects[i]),
{
}

/// The last running node that Discord plays through is the one that is recorded from.
pub proof fn law_last_running_is_recorded(objects: Seq<JsonView>, i: int)
    requires
        0 <= i < objects.len(),
        plays(objects[i]),
        running(objects[i]),
        forall|k: int|
            i < k < objects.len() ==> !(plays(#[trigger] objects[k]) && running(objects[k])),
    ensures
        playing(objects) == Some(objects[i]),
        snapshot_of(objects).discord_out_serial == objects[i].member("info"@).member(
            "props"@,
        ).member("object.serial"@).unsigned(),
    decreases objects.len(),
{
    if i < objects.len() - 1 {
        let before = objects.drop_last();
        assert(!(plays(objects[objects.len() - 1]) && running(objects[objects.len() - 1])));
        assert forall|k: int| i < k < before.len() implies !(plays(#[trigger] before[k])
            && running(before[k])) by {
            assert(objects[k] == before[k]);
        }
        law_last_running_is_recorded(before, i);
        lemma_last_running(before);
    }
}

/// Where none runs the serial is that of the first node that Discord plays through; without any,
/// there is none.
pub proof fn law_serial_of_the_idle(objects: Seq<JsonView>, i: int)
    requires
        0 <= i <= objects.len(),
        forall|k: int| 0 <= k < i ==> !plays(#[trigger] objects[k]),
        i < objects.len() ==> plays(objects[i]),
        forall|k: int|
            0 <= k < objects.len() ==> !(plays(#[trigger] objects[k]) && running(objects[k])),
    ensures
        snapshot_of(objects).discord_out_serial == if i < objects.len() {
            objects[i].member("info"@).member("props"@).member("object.serial"@).unsigned()
        } else {
            None
        },
{
    if i < objects.len() {
        law_first_idle_is_kept(objects, i);
    } else {
        lemma_last_running(objects);
        lemma_first_playing(objects);
        if let Some(object) = first_playing(objects) {
            let k = choose|k: int| 0 <= k < objects.len() && objects[k] == object;
            assert(!plays(objects[k]));
        }
        if let Some(object) = last_running(objects) {
            let k = choose|k: int| 0 <= k < objects.len() && objects[k] == object;
            assert(!plays(objects[k]));
        }
    }
}

/// What could not be read is told with its reason.
pub proof fn law_reasons_are_told(reason: String)
    ensures
        reason@.is_suffix_of(PwError::Unreadable(reason).text()),
{
    let text = PwError::Unreadable(reason).text();
    assert(text.subrange(text.len() - reason@.len(), text.len() as int) =~= reason@);
}

} // verus!
