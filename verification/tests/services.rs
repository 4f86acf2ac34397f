use wasmdome::arena::{self, HostCall};
use wasmdome::cli;
use wasmdome::creds::{self, CredentialsRequest, CredentialsResponse, Exchange};
use wasmdome::events::EndCause;
use wasmdome::historian::{self, HistorianRoute};
use wasmdome::hosting;
use wasmdome::leaderboard::{self, LeaderboardRoute};
use wasmdome::protocol::{self, ArenaControlCommand, ArenaEvent, CreateMatch, MatchEvent, ScheduleActor, Timestamp};
use wasmdome::scheduler::{self, MatchIdentifier, MatchScheduleEntry, ScheduleRequest, StoredMatch};
use wasmdome::state::{MatchParameters, MatchState};
use wasmdome::store::{self, MatchStore, StoreError};

fn params(id: &str) -> MatchParameters {
    MatchParameters::new(id.to_string(), 10, 10, 5, 4, vec!["al".to_string()])
}

#[test]
fn store_gives_back_what_was_saved() {
    let mut s = MatchStore::new();
    s.save_match_state("m1", MatchState::new_with_parameters(params("m1")));
    s.save_match_state("m2", MatchState::new_with_parameters(params("m2")));
    assert_eq!(s.get_match_state("m1").unwrap().parameters.match_id, "m1");
    assert_eq!(s.get_match_state("m2").unwrap().parameters.match_id, "m2");
    let mut later = MatchState::new_with_parameters(params("m1"));
    later.generation = 7;
    s.save_match_state("m1", later);
    assert_eq!(s.get_match_state("m1").unwrap().generation, 7);
    assert_eq!(s.get_match_state("m2").unwrap().generation, 0);
}

#[test]
fn store_refuses_unknown_match() {
    let s = MatchStore::new();
    match s.get_match_state("nope") {
        Err(e) => {
            assert_eq!(e, StoreError::NoSuchMatch);
            assert_eq!(e.message(), "No such match");
        }
        Ok(_) => panic!("an unknown match was found"),
    }
}

#[test]
fn store_binds_each_actor_once() {
    let mut s = MatchStore::new();
    s.add_bound_actor("al");
    s.add_bound_actor("bob");
    s.add_bound_actor("al");
    assert_eq!(s.bound_actors(), vec!["al".to_string(), "bob".to_string()]);
    s.remove_bound_actor("al");
    assert_eq!(s.bound_actors(), vec!["bob".to_string()]);
    s.remove_bound_actor("nobody");
    assert_eq!(s.bound_actors(), vec!["bob".to_string()]);
}

#[test]
fn store_keys() {
    assert_eq!(store::match_key("abc"), "wasmdome:matches:abc:state");
    assert_eq!(store::actors_key(), "wasmdome:actors");
}

fn stored(id: &str, seconds: i64, nanos: u32) -> StoredMatch {
    scheduler::stored_match(
        id.to_string(),
        MatchScheduleEntry {
            max_actors: 4,
            board_height: 10,
            board_width: 12,
            max_turns: 50,
            match_start: Timestamp { seconds, nanos },
        },
    )
}

#[test]
fn schedule_is_sorted_by_start_keeping_ties_in_order() {
    let sorted = scheduler::sort_schedule(vec![
        stored("late", 500, 0),
        stored("early", 300, 9),
        stored("late-too", 500, 0),
        stored("earliest", 300, 1),
    ]);
    let ids: Vec<&str> = sorted.iter().map(|m| m.match_id.as_str()).collect();
    assert_eq!(ids, vec!["earliest", "early", "late", "late-too"]);
    assert!(sorted.iter().all(|m| m.aps_per_turn == scheduler::SCHEDULED_APS_PER_TURN));
}

#[test]
fn schedule_keys_and_routes() {
    assert_eq!(scheduler::match_key("x"), "wasmdome:sched_matches:x");
    assert_eq!(scheduler::match_set_key(), "wasmdome:sched_matches");
    let (key, member) = scheduler::del_match_keys(&MatchIdentifier { match_id: "x".to_string() });
    assert_eq!(key, "wasmdome:sched_matches:x");
    assert_eq!(member, key);
    assert_eq!(scheduler::route("wasmdome.public.arena.schedule"), ScheduleRequest::GetSchedule);
    assert_eq!(scheduler::route("wasmdome.internal.arena.new_match"), ScheduleRequest::AddMatch);
    assert_eq!(scheduler::route("wasmdome.internal.arena.del_match"), ScheduleRequest::DelMatch);
    assert_eq!(scheduler::route("wasmdome.other"), ScheduleRequest::Unexpected);
}

#[test]
fn historian_subjects() {
    assert_eq!(historian::match_stream_id("m1"), "wasmdome.history.match.m1");
    assert_eq!(historian::replay_subject("m1"), "wasmdome.match.m1.events.replay");
    assert!(historian::is_match_event_subject("wasmdome.match.m1.events"));
    assert!(historian::is_match_event_subject("WasmDome.Match.M1.EVENTS"));
    assert!(!historian::is_match_event_subject("wasmdome.match.m1.events.replay"));
    assert!(!historian::is_match_event_subject(&historian::replay_subject("ΣVENTS.EVENTS")));
    assert_ne!(historian::route(&historian::replay_subject("m1")), HistorianRoute::RecordMatchEvent);
    assert!(!historian::is_match_event_subject("wasmdome.arena.events"));
    assert_eq!(historian::route("wasmdome.history.replay"), HistorianRoute::TriggerReplay);
    assert_eq!(historian::route("wasmdome.match.m1.events"), HistorianRoute::RecordMatchEvent);
    assert_eq!(historian::route("something.else"), HistorianRoute::Ignore);
}

#[test]
fn historian_extracts_match_id() {
    let evt = MatchEvent::MatchStarted { match_id: "m9".to_string() };
    assert_eq!(historian::extract_match_id(&evt), "m9");
    let evt = MatchEvent::TurnEvent {
        actor: "al".to_string(),
        match_id: "m3".to_string(),
        turn: 2,
        turn_event: wasmdome::events::GameEvent::MatchTurnCompleted { new_turn: 3 },
    };
    assert_eq!(historian::extract_match_id(&evt), "m3");
}

#[test]
fn leaderboard_routes_and_records() {
    assert_eq!(leaderboard::route("wasmdome.match.m.events"), LeaderboardRoute::MatchEvent);
    assert_eq!(leaderboard::route("wasmdome.internal.arena.leaderboard.get"), LeaderboardRoute::GetLeaderboard);
    assert_eq!(leaderboard::route("WASMDOME.MATCH.m.EVENTS"), LeaderboardRoute::BadDispatch);
    let evt = MatchEvent::TurnEvent {
        actor: "al".to_string(),
        match_id: "m".to_string(),
        turn: 0,
        turn_event: wasmdome::events::GameEvent::GameFinished { cause: EndCause::MechVictory("al".to_string()) },
    };
    let lb = leaderboard::record_match_event(None, &evt).unwrap();
    assert_eq!(lb.stats.len(), 1);
    assert_eq!(lb.stats[0].0, "al");
    assert_eq!(lb.stats[0].1.wins, 1);
    let other = MatchEvent::MatchStarted { match_id: "m".to_string() };
    let same = leaderboard::record_match_event(Some(lb), &other).unwrap();
    assert_eq!(same.stats[0].1.wins, 1);
}

#[test]
fn arena_keeps_only_bound_actors() {
    let orig = vec!["a".to_string(), "b".to_string(), "c".to_string()];
    let healthy = vec!["c".to_string(), "a".to_string()];
    assert_eq!(arena::remove_noshows(&orig, &healthy), vec!["a".to_string(), "c".to_string()]);
    let cm = CreateMatch {
        match_id: "m".to_string(),
        actors: orig.clone(),
        board_height: 20,
        board_width: 30,
        max_turns: 7,
        aps_per_turn: 4,
    };
    let p = arena::match_parameters(&cm, &healthy);
    assert_eq!(p.actors, vec!["a".to_string(), "c".to_string()]);
    assert_eq!((p.width, p.height, p.max_turns, p.aps_per_turn), (30, 20, 7, 4));
    match arena::match_started(&p, Timestamp { seconds: 12, nanos: 3 }) {
        ArenaEvent::MatchStarted { match_id, actors, board_height, board_width, start_time } => {
            assert_eq!(match_id, "m");
            assert_eq!(actors, p.actors);
            assert_eq!((board_height, board_width), (20, 30));
            assert_eq!(start_time, Timestamp { seconds: 12, nanos: 3 });
        }
        _ => panic!("not a start"),
    }
}

#[test]
fn arena_dispatch_and_settings() {
    assert_eq!(arena::dispatch_call("system", "BindActor"), HostCall::Configure);
    assert_eq!(arena::dispatch_call("system", "RemoveActor"), HostCall::Deconfigure);
    assert_eq!(arena::dispatch_call("system", "GetCapabilityDescriptor"), HostCall::GetDescriptor);
    assert_eq!(arena::dispatch_call("mallory", "BindActor"), HostCall::BadDispatch);
    assert_eq!(arena::dispatch_call("system", "StartMatch"), HostCall::BadDispatch);
    assert_eq!(arena::env_or_default(Some("10.0.0.1"), "127.0.0.1"), "10.0.0.1");
    assert_eq!(arena::env_or_default(Some(""), "127.0.0.1"), "127.0.0.1");
    assert_eq!(arena::env_or_default(None, "127.0.0.1"), "127.0.0.1");
}

#[test]
fn host_configurations() {
    let pairs = |v: Vec<(String, String)>| v.into_iter().collect::<Vec<_>>();
    assert_eq!(
        pairs(hosting::gen_config("MABC")),
        vec![
            ("SUBSCRIPTION".to_string(), "wasmdome.matches.*.turns.MABC".to_string()),
            ("URL".to_string(), "nats://localhost:4222".to_string()),
        ]
    );
    assert_eq!(
        pairs(hosting::generate_config("wasmdome.match_events.*")),
        vec![
            ("SUBSCRIPTION".to_string(), "wasmdome.match_events.*".to_string()),
            ("URL".to_string(), "nats://localhost:4222".to_string()),
        ]
    );
    assert_eq!(pairs(hosting::redis_config()), vec![("URL".to_string(), "redis://127.0.0.1:6379".to_string())]);
}

#[test]
fn mech_team_avatar_and_name() {
    let tags = |v: &[&str]| v.iter().map(|s| s.to_string()).collect::<Vec<_>>();
    assert_eq!(hosting::get_team(&tags(&["fast", "npc"])), "boylur");
    assert_eq!(hosting::get_team(&tags(&["fast", "npcs"])), "earth");
    assert_eq!(hosting::get_avatar(&tags(&["x", "avatar-boylur", "avatar-other"])), "boylur");
    assert_eq!(hosting::get_avatar(&tags(&["avatar-avatar-x"])), "x");
    assert_eq!(hosting::get_avatar(&tags(&["x", "my-avatar-y"])), "none");
    assert_eq!(hosting::mech_name(None), "Unnamed");
    assert_eq!(hosting::mech_name(Some(&"Bob".to_string())), "Bob");
    let req = ScheduleActor { actor: "MABC".to_string(), match_id: "m1".to_string() };
    let (subject, evt) = hosting::actor_started(&req, "earth".to_string(), "av".to_string(), "Bob".to_string());
    assert_eq!(subject, "wasmdome.match_events.m1");
    match evt {
        MatchEvent::ActorStarted { match_id, actor, avatar, name, team } => {
            assert_eq!((match_id.as_str(), actor.as_str()), ("m1", "MABC"));
            assert_eq!((avatar.as_str(), name.as_str(), team.as_str()), ("av", "Bob", "earth"));
        }
        _ => panic!("not an actor start"),
    }
}

#[test]
fn cli_start_command() {
    assert_eq!(
        cli::start_match_command("m".to_string(), &vec![], 10, 20, 30).err(),
        Some(cli::NO_MECHS_MESSAGE)
    );
    match cli::start_match_command("m".to_string(), &vec!["a".to_string()], 10, 20, 30) {
        Ok(ArenaControlCommand::StartMatch(cm)) => {
            assert_eq!(cm.match_id, "m");
            assert_eq!(cm.actors, vec!["a".to_string()]);
            assert_eq!((cm.max_turns, cm.board_height, cm.board_width, cm.aps_per_turn), (10, 20, 30, 4));
        }
        _ => panic!("no start command"),
    }
    let done = ArenaEvent::MatchCompleted {
        match_id: "m".to_string(),
        cause: EndCause::MechVictory("a".to_string()),
        time: Timestamp { seconds: 1, nanos: 0 },
    };
    let (id, cause) = cli::completed_match(&done).unwrap();
    assert_eq!(id, "m");
    assert_eq!(cause, EndCause::MechVictory("a".to_string()));
    let other = ArenaEvent::MechConnected { actor: "a".to_string(), time: Timestamp { seconds: 1, nanos: 0 } };
    assert!(cli::completed_match(&other).is_none());
}

#[test]
fn protocol_subjects() {
    assert_eq!(protocol::events_subject(Some("m1")), "wasmdome.match.m1.events");
    assert_eq!(protocol::events_subject(None), "wasmdome.arena.events");
    assert_eq!(protocol::arena_control_subject(), "wasmdome.arena.control");
    assert_eq!(protocol::match_events_subject("m1"), "wasmdome.match_events.m1");
    assert_eq!(protocol::schedule_actor_subject("m1"), "wasmdome.matches.m1.scheduleactor");
    assert_eq!(protocol::turns_subject("m1", "al"), "wasmdome.matches.m1.turns.al");
}

#[test]
fn one_time_tokens_are_exchanged_once_for_their_account() {
    assert_eq!(creds::ott_key("ABC"), "wasmdome:ott:ABC");
    let req = CredentialsRequest { account_key: "ACC1".to_string(), token: "T".to_string() };
    match creds::exchange_token(None, &req) {
        Exchange::Reject(CredentialsResponse::Error(m)) => assert_eq!(m, "No such token"),
        _ => panic!("missing token accepted"),
    }
    match creds::exchange_token(Some("ACC2"), &req) {
        Exchange::Reject(CredentialsResponse::Error(m)) => {
            assert_eq!(m, "Attempt to exchange token for invalid account")
        }
        _ => panic!("wrong account accepted"),
    }
    assert!(matches!(creds::exchange_token(Some("ACC1"), &req), Exchange::Grant));
    assert_eq!(creds::credentials_expiry(1000), 2200);
}

#[test]
fn jwt_segments_are_url_safe_base64() {
    assert_eq!(
        creds::to_jwt_segment("{\"alg\":\"ed25519\",\"typ\":\"jwt\"}"),
        "eyJhbGciOiJlZDI1NTE5IiwidHlwIjoiand0In0"
    );
    assert_eq!(creds::to_jwt_segment(""), "");
}

#[test]
fn jwt_is_signed_by_the_key_pair() {
    let kp = nkeys::KeyPair::new_account();
    let header = "{\"alg\":\"ed25519\",\"typ\":\"jwt\"}";
    let claims = "{\"name\":\"Generated User\"}";
    let seed = kp.seed().unwrap();
    let token = creds::encode(header, claims, &seed).unwrap();
    assert_eq!(creds::encode(header, claims, &seed).unwrap(), token);
    let parts: Vec<&str> = token.split('.').collect();
    assert_eq!(parts.len(), 3);
    assert_eq!(parts[0], creds::to_jwt_segment(header));
    assert_eq!(parts[1], creds::to_jwt_segment(claims));
    let sig = base64::decode_config(parts[2], base64::URL_SAFE_NO_PAD).unwrap();
    assert_eq!(sig.len(), 64);
    let signed = format!("{}.{}", parts[0], parts[1]);
    assert!(kp.verify(signed.as_bytes(), &sig).is_ok());
}

#[test]
fn jwt_needs_a_seed() {
    let kp = nkeys::KeyPair::new_user();
    assert_eq!(creds::encode("{}", "{}", &kp.public_key()).err(), Some(creds::CredsError::SigningFailed));
    assert_eq!(creds::encode("{}", "{}", "").err(), Some(creds::CredsError::SigningFailed));
}

#[test]
fn a_token_is_closed_by_its_signature_segment() {
    assert_eq!(
        creds::finish_token("aGVhZA.Y2xhaW1z", Ok(vec![0xfb, 0xff, 0x00])),
        Ok("aGVhZA.Y2xhaW1z.-_8A".to_string())
    );
    let kp = nkeys::KeyPair::new_user();
    let public_only = nkeys::KeyPair::from_public_key(&kp.public_key()).unwrap();
    let failed = public_only.sign(b"aGVhZA.Y2xhaW1z");
    assert_eq!(creds::finish_token("aGVhZA.Y2xhaW1z", failed), Err(creds::CredsError::SigningFailed));
}

#[test]
fn a_drawn_id_becomes_its_upper_case_token() {
    assert_eq!(creds::ott_from_id("abcXYZ09"), "ABCXYZ09");
    assert_eq!(creds::ott_from_id(""), "");
}

#[test]
fn one_time_tokens_are_fresh_and_upper_case() {
    let t = creds::new_ott();
    assert_eq!(t.chars().count(), 22);
    assert!(t.chars().all(|c| c.is_ascii_digit() || c.is_ascii_uppercase()));
    assert_ne!(creds::new_ott(), t);
}

#[test]
fn user_claims_expire_after_twenty_minutes() {
    let c = creds::user_claims("UUSER", "AISSUER", "Generated User", "JTI1".to_string(), 1000, 1001);
    assert_eq!(c.jti, "JTI1");
    assert_eq!(c.exp, 1000 + 20 * 60);
    assert_eq!(c.iat, 1001);
    assert_eq!(c.iss, "AISSUER");
    assert_eq!(c.sub, "UUSER");
    assert_eq!(c.name, "Generated User");
    assert_eq!(c.claim_type, "user");
    assert_eq!(c.pub_allow, vec!["wasmbus.provider.wasmdome.engine.default".to_string(), "_INBOX.>".to_string()]);
    assert_eq!(c.sub_allow, vec!["wasmbus.actor.*".to_string(), "INBOX.>".to_string()]);
}

#[test]
fn minting_parties_come_from_the_signing_seed_and_a_fresh_user() {
    let signer = nkeys::KeyPair::new_account();
    let p = creds::mint_parties(&signer.seed().unwrap()).unwrap();
    assert_eq!(p.issuer, signer.public_key());
    let user = nkeys::KeyPair::from_seed(&p.user_seed).unwrap();
    assert_eq!(user.public_key(), p.user_public);
    assert!(p.user_public.starts_with('U'));
    assert!(creds::mint_parties(&signer.public_key()).is_err());
}
