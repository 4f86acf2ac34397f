//! The hosts of the arena's actors: how each actor is bound to its
//! capabilities, and what a mech host announces when it starts a mech.

use vstd::prelude::*;
use crate::events::strings_view;
use crate::protocol::{match_events_subject, MatchEvent, ScheduleActor};
use crate::text::{has_prefix, replace_all, replaced, starts_with};

verus! {

/// The message broker of the lattice.
pub const NATS_URL: &'static str = "nats://localhost:4222";
/// The key-value store of the lattice.
pub const REDIS_URL: &'static str = "redis://127.0.0.1:6379";
/// The subject on which mech hosts are asked to start mechs.
pub const SCHEDULE_ACTOR_SUBSCRIPTION: &'static str = "wasmdome.matches.*.scheduleactor";
/// The queue group the mech hosts share.
pub const MECH_HOST_QUEUE: &'static str = "mech-host";
/// The subjects the command processor listens on.
pub const COMMAND_PROCESSOR_SUBSCRIPTION: &'static str = "wasmdome.match_events.*";
/// The subjects the match coordinator listens on.
pub const MATCH_COORDINATOR_SUBSCRIPTION: &'static str = "wasmdome.matches.create, wasmdome.match_events.*";
/// The tag that marks a mech as one of the arena's own.
pub const NPC_TAG: &'static str = "npc";
/// The prefix of the tag that names a mech's avatar.
pub const AVATAR_TAG_PREFIX: &'static str = "avatar-";

pub open spec fn config_view(v: Seq<(String, String)>) -> Seq<(Seq<char>, Seq<char>)> {
    v.map_values(|e: (String, String)| (e.0@, e.1@))
}

/// The messaging configuration of an actor that listens on `sub`.
pub fn generate_config(sub: &str) -> (r: Vec<(String, String)>)
    ensures
        config_view(r@) == seq![("SUBSCRIPTION"@, sub@), ("URL"@, NATS_URL@)],
{
    let r = vec![
        (String::from_str("SUBSCRIPTION"), String::from_str(sub)),
        (String::from_str("URL"), String::from_str(NATS_URL)),
    ];
    assert(config_view(r@) =~= seq![("SUBSCRIPTION"@, sub@), ("URL"@, NATS_URL@)]);
    r
}

/// The key-value configuration of an actor.
pub fn redis_config() -> (r: Vec<(String, String)>)
    ensures
        config_view(r@) == seq![("URL"@, REDIS_URL@)],
{
    let r = vec![(String::from_str("URL"), String::from_str(REDIS_URL))];
    assert(config_view(r@) =~= seq![("URL"@, REDIS_URL@)]);
    r
}

/// The messaging configuration of a mech: it listens for its turns in
/// every match.
pub fn gen_config(actor: &str) -> (r: Vec<(String, String)>)
    ensures
        config_view(r@) == seq![("SUBSCRIPTION"@, "wasmdome.matches.*.turns."@ + actor@), ("URL"@, NATS_URL@)],
{
    let r = vec![
        (String::from_str("SUBSCRIPTION"), String::from_str("wasmdome.matches.*.turns.").concat(actor)),
        (String::from_str("URL"), String::from_str(NATS_URL)),
    ];
    assert(config_view(r@) =~= seq![("SUBSCRIPTION"@, "wasmdome.matches.*.turns."@ + actor@), ("URL"@, NATS_URL@)]);
    r
}

/// The team of a mech by its tags: the arena's own mechs fight for
/// Boylur Plait, the others for Earth.
pub fn get_team(tags: &Vec<String>) -> (r: String)
    ensures
        r@ == (if strings_view(tags@).contains(NPC_TAG@) { "boylur"@ } else { "earth"@ }),
{
    let npc = String::from_str(NPC_TAG);
    if crate::events::contains_string(tags, &npc) {
        String::from_str("boylur")
    } else {
        String::from_str("earth")
    }
}

/// Whether a tag names an avatar.
pub open spec fn is_avatar_tag() -> spec_fn(Seq<char>) -> bool {
    |t: Seq<char>| has_prefix(t, AVATAR_TAG_PREFIX@)
}

/// The avatar of a mech by its tags: the first avatar tag with every
/// `avatar-` taken out of it, or `none`.
pub fn get_avatar(tags: &Vec<String>) -> (r: String)
    ensures
        r@ == (match crate::npc::tactics::first_of(strings_view(tags@), is_avatar_tag()) {
            Some(t) => replaced(t, AVATAR_TAG_PREFIX@, Seq::empty()),
            None => "none"@,
        }),
{
    let ghost v = strings_view(tags@);
    let mut i: usize = 0;
    while i < tags.len()
        invariant
            i <= tags.len(),
            v == strings_view(tags@),
            forall|j: int| 0 <= j < i ==> !is_avatar_tag()(#[trigger] v[j]),
        decreases tags.len() - i,
    {
        if starts_with(tags[i].as_str(), AVATAR_TAG_PREFIX) {
            proof {
                crate::seqs::lemma_first_index_unique(v, is_avatar_tag(), i as int);
                reveal_strlit("avatar-");
                reveal_strlit("");
                assert(""@ =~= Seq::<char>::empty());
                assert(v[i as int] == tags@[i as int]@);
            }
            return replace_all(tags[i].as_str(), AVATAR_TAG_PREFIX, "");
        }
        i = i + 1;
    }
    proof {
        crate::seqs::lemma_first_index(v, is_avatar_tag());
        let k = crate::seqs::first_index(v, is_avatar_tag());
        if k >= 0 {
            assert(is_avatar_tag()(v[k]));
        }
    }
    String::from_str("none")
}

/// The name of a mech, or `Unnamed` when it has none.
pub fn mech_name(name: Option<&String>) -> (r: String)
    ensures
        r@ == match name {
            Some(n) => n@,
            None => "Unnamed"@,
        },
{
    match name {
        Some(n) => n.clone(),
        None => String::from_str("Unnamed"),
    }
}

/// What a mech host announces once it has a mech running for a match:
/// the event and the match's event subject it goes out on.
pub fn actor_started(req: &ScheduleActor, team: String, avatar: String, name: String) -> (r: (String, MatchEvent))
    ensures
        r.0@ == "wasmdome.match_events."@ + req.match_id@,
        r.1 matches MatchEvent::ActorStarted { match_id, actor, avatar: a, name: n, team: t }
            && match_id@ == req.match_id@ && actor@ == req.actor@ && a@ == avatar@ && n@ == name@ && t@ == team@,
{
    let subject = match_events_subject(req.match_id.as_str());
    (subject, MatchEvent::ActorStarted {
        name,
        avatar,
        team,
        actor: req.actor.clone(),
        match_id: req.match_id.clone(),
    })
}

} // verus!
