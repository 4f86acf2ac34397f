//! The historian: records the events of each match in a stream of its own
//! and replays them on request.

use vstd::prelude::*;
use crate::protocol::MatchEvent;
use crate::text::{ascii_lowercase, ends_with, has_prefix, has_suffix, is_ascii_text, lowercase_of, starts_with, to_lowercase};

verus! {

/// The subject on which a replay is requested.
pub const SUBJECT_TRIGGER_REPLAY: &'static str = "wasmdome.history.replay";

/// The id of the event stream that holds a match's history (not a message
/// subject).
pub fn match_stream_id(match_id: &str) -> (r: String)
    ensures
        r@ == "wasmdome.history.match."@ + match_id@,
{
    String::from_str("wasmdome.history.match.").concat(match_id)
}

/// Whether a subject carries the events of a match: in lower case it
/// begins with `wasmdome.match.` and ends with `.events`.
/// A replay subject (one ending in `.events.replay`) never counts as one.
pub fn is_match_event_subject(subject: &str) -> (b: bool)
    ensures
        b == (has_prefix(lowercase_of(subject@), "wasmdome.match."@) && has_suffix(lowercase_of(subject@), ".events"@)),
        has_suffix(subject@, REPLAY_SUFFIX@) ==> !b,
{
    let lower = to_lowercase(subject);
    proof {
        if has_suffix(subject@, REPLAY_SUFFIX@) {
            lemma_replay_suffix_survives_lowercase(subject@, lower@);
        }
    }
    starts_with(lower.as_str(), "wasmdome.match.") && ends_with(lower.as_str(), ".events")
}

/// The ending of every replay subject.
pub const REPLAY_SUFFIX: &'static str = ".events.replay";

/// A text that ends like a replay subject keeps that ending in lower case,
/// so its lower-case form does not end in `.events`.
proof fn lemma_replay_suffix_survives_lowercase(subject: Seq<char>, lower: Seq<char>)
    requires
        has_suffix(subject, REPLAY_SUFFIX@),
        forall|k: int|
            0 <= k <= subject.len() && #[trigger] is_ascii_text(subject.subrange(k, subject.len() as int)) ==> has_suffix(
                lower,
                ascii_lowercase(subject.subrange(k, subject.len() as int)),
            ),
    ensures
        !has_suffix(lower, ".events"@),
{
    reveal_strlit(".events.replay");
    reveal_strlit(".events");
    let k = subject.len() - 14;
    let tail = subject.subrange(k, subject.len() as int);
    assert(tail =~= REPLAY_SUFFIX@);
    assert(is_ascii_text(tail));
    assert(ascii_lowercase(tail) =~= REPLAY_SUFFIX@);
    assert(has_suffix(lower, REPLAY_SUFFIX@));
    let n = lower.len() as int;
    assert(lower.subrange(n - 14, n)[13] == REPLAY_SUFFIX@[13]);
    assert(lower[n - 1] == 'y');
    if has_suffix(lower, ".events"@) {
        assert(lower.subrange(n - 7, n)[6] == ".events"@[6]);
        assert(lower[n - 1] == 's');
    }
}

/// The subject on which a match's events are replayed.
pub fn replay_subject(match_id: &str) -> (r: String)
    ensures
        r@ == replay_subject_of(match_id@),
{
    String::from_str("wasmdome.match.").concat(match_id).concat(".events.replay")
}

/// The replay subject of match `match_id`.
pub open spec fn replay_subject_of(match_id: Seq<char>) -> Seq<char> {
    "wasmdome.match."@ + match_id + ".events.replay"@
}

/// Replays never land where live events go: the replay subject of a match
/// differs from the subject its live events are published on, and it ends
/// as a replay subject, so the historian never records it again.
pub proof fn lemma_replay_apart_from_live(match_id: Seq<char>)
    ensures
        replay_subject_of(match_id) != "wasmdome.match."@ + match_id + ".events"@,
        has_suffix(replay_subject_of(match_id), REPLAY_SUFFIX@),
{
    reveal_strlit(".events.replay");
    reveal_strlit(".events");
    let r = replay_subject_of(match_id);
    assert(r.len() != ("wasmdome.match."@ + match_id + ".events"@).len());
    assert(r.subrange(r.len() - 14, r.len() as int) =~= REPLAY_SUFFIX@);
}

/// The match an event belongs to.
pub fn extract_match_id(evt: &MatchEvent) -> (r: String)
    ensures
        r@ == match evt {
            MatchEvent::TurnEvent { match_id, .. } => match_id@,
            MatchEvent::ActorStarted { match_id, .. } => match_id@,
            MatchEvent::MatchCreated { match_id, .. } => match_id@,
            MatchEvent::MatchStarted { match_id } => match_id@,
            MatchEvent::TurnRequested { match_id, .. } => match_id@,
        },
{
    match evt {
        MatchEvent::TurnEvent { match_id, .. } => match_id.clone(),
        MatchEvent::ActorStarted { match_id, .. } => match_id.clone(),
        MatchEvent::MatchCreated { match_id, .. } => match_id.clone(),
        MatchEvent::MatchStarted { match_id } => match_id.clone(),
        MatchEvent::TurnRequested { match_id, .. } => match_id.clone(),
    }
}

/// What a message delivered to the historian asks for.
#[derive(Debug, Clone, Copy, PartialEq, Eq, Structural)]
pub enum HistorianRoute {
    TriggerReplay,
    RecordMatchEvent,
    Ignore,
}

/// Routes a message by its subject: the replay subject first (the events
/// subjects share its beginning), then the events of a match.
pub fn route(subject: &str) -> (r: HistorianRoute)
    ensures
        r == (if subject@ == SUBJECT_TRIGGER_REPLAY@ {
            HistorianRoute::TriggerReplay
        } else if has_prefix(lowercase_of(subject@), "wasmdome.match."@) && has_suffix(lowercase_of(subject@), ".events"@) {
            HistorianRoute::RecordMatchEvent
        } else {
            HistorianRoute::Ignore
        }),
        has_suffix(subject@, REPLAY_SUFFIX@) ==> r != HistorianRoute::RecordMatchEvent,
{
    if crate::text::same_text(subject, SUBJECT_TRIGGER_REPLAY) {
        HistorianRoute::TriggerReplay
    } else if is_match_event_subject(subject) {
        HistorianRoute::RecordMatchEvent
    } else {
        HistorianRoute::Ignore
    }
}

} // verus!
