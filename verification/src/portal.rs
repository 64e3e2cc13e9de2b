//! The answer of the Wayland portal that is asked for a window.

use vstd::prelude::*;

use crate::text::concat2;

verus! {

/// A stream that the portal granted.
pub struct Granted {
    pub node_id: u32,
    /// The token with which the same window is found again.
    pub restore_token: Option<String>,
}

/// What came of asking the portal.
pub enum Answer {
    /// The user did not answer in time.
    TimedOut(String),
    /// The portal was no longer waited for.
    Interrupted(String),
    /// The portal, or the user, refused.
    Refused(String),
    /// The streams that were chosen, and the token for them.
    Streams { nodes: Vec<u32>, restore_token: Option<String> },
}

/// Why there is no stream, where there is none.
pub open spec fn refusal(answer: Answer) -> Option<Seq<char>> {
    match answer {
        Answer::TimedOut(cause) => Some("popup du portail restée sans réponse (120 s): "@ + cause@),
        Answer::Interrupted(cause) => Some("la tâche du portail s'est interrompue: "@ + cause@),
        Answer::Refused(cause) => Some("le portail ScreenCast a refusé: "@ + cause@),
        Answer::Streams { nodes, .. } => if nodes@.len() == 0 {
            Some("le portail ScreenCast a refusé: "@ + "aucune fenêtre sélectionnée"@)
        } else {
            None
        },
    }
}

/// Takes the first stream that was granted; without one, says why.
pub fn acquire(answer: Answer) -> (r: Result<Granted, String>)
    ensures
        match r {
            Ok(granted) => answer matches Answer::Streams { nodes, restore_token } && nodes@.len()
                > 0 && granted.node_id == nodes@[0] && granted.restore_token == restore_token,
            Err(text) => refusal(answer) == Some(text@),
        },
        r is Ok <==> refusal(answer) is None,
{
    match answer {
        Answer::TimedOut(cause) => Err(
            concat2("popup du portail restée sans réponse (120 s): ", cause.as_str()),
        ),
        Answer::Interrupted(cause) => Err(
            concat2("la tâche du portail s'est interrompue: ", cause.as_str()),
        ),
        Answer::Refused(cause) => Err(
            concat2("le portail ScreenCast a refusé: ", cause.as_str()),
        ),
        Answer::Streams { nodes, restore_token } => {
            if nodes.len() == 0 {
                Err(concat2("le portail ScreenCast a refusé: ", "aucune fenêtre sélectionnée"))
            } else {
                Ok(Granted { node_id: nodes[0], restore_token })
            }
        },
    }
}

/// The portal's answer is refused exactly where it names no stream; the reason is told in full.
pub proof fn law_refused_without_a_stream(answer: Answer)
    ensures
        refusal(answer) is None <==> (answer matches Answer::Streams { nodes, .. } && nodes@.len()
            > 0),
        match answer {
            Answer::TimedOut(cause) | Answer::Interrupted(cause) | Answer::Refused(cause) =>
                cause@.is_suffix_of(refusal(answer)->0),
            _ => true,
        },
{
    match answer {
        Answer::TimedOut(cause) | Answer::Interrupted(cause) | Answer::Refused(cause) => {
            let text = refusal(answer)->0;
            assert(text.subrange(text.len() - cause@.len(), text.len() as int) =~= cause@);
        },
        _ => {},
    }
}

} // verus!
