//! The engine provider: binds mechs to the engine, and starts matches with
//! the mechs that are bound and healthy.

use vstd::prelude::*;
use crate::events::{clone_strings, contains_string, strings_view};
use crate::protocol::{ArenaEvent, CreateMatch, Timestamp};
use crate::state::MatchParameters;

verus! {

/// The actor name under which the host makes its calls.
pub const SYSTEM_ACTOR: &'static str = "system";
/// The capability the provider offers.
pub const CAPABILITY_ID: &'static str = "wasmdome:engine";
/// The revision of the provider.
pub const REVISION: u32 = 0;
/// The environment variable that names the lattice host.
pub const LATTICE_HOST_KEY: &'static str = "LATTICE_HOST";
/// The lattice host when none is named: anonymous, over loopback.
pub const DEFAULT_LATTICE_HOST: &'static str = "127.0.0.1";
/// The environment variable that names the lattice credentials file.
pub const LATTICE_CREDSFILE_KEY: &'static str = "LATTICE_CREDS_FILE";
/// The host operation that binds an actor to the provider.
pub const OP_BIND_ACTOR: &'static str = "BindActor";
/// The host operation that removes an actor from the provider.
pub const OP_REMOVE_ACTOR: &'static str = "RemoveActor";
/// The host operation that asks for the provider's descriptor.
pub const OP_GET_CAPABILITY_DESCRIPTOR: &'static str = "GetCapabilityDescriptor";

/// The value of a setting: the value that was read, unless it is missing
/// or empty, in which case the default.
pub fn env_or_default(value: Option<&str>, default: &str) -> (r: String)
    ensures
        r@ == match value {
            Some(v) => if v@.len() == 0 { default@ } else { v@ },
            None => default@,
        },
{
    match value {
        Some(v) => {
            if v.unicode_len() == 0 {
                String::from_str(default)
            } else {
                String::from_str(v)
            }
        },
        None => String::from_str(default),
    }
}

/// `orig` without the actors that are not in `healthy`, in their order.
pub open spec fn present(orig: Seq<Seq<char>>, healthy: Seq<Seq<char>>) -> Seq<Seq<char>> {
    orig.filter(|a: Seq<char>| healthy.contains(a))
}

/// The actors of `orig` that showed up among the `healthy` ones, in their
/// order.
pub fn remove_noshows(orig: &Vec<String>, healthy: &Vec<String>) -> (r: Vec<String>)
    ensures
        strings_view(r@) == present(strings_view(orig@), strings_view(healthy@)),
{
    let ghost o = strings_view(orig@);
    let ghost h = strings_view(healthy@);
    let mut filtered: Vec<String> = Vec::new();
    let mut i: usize = 0;
    while i < orig.len()
        invariant
            i <= orig.len(),
            o == strings_view(orig@),
            h == strings_view(healthy@),
            strings_view(filtered@) == present(o.subrange(0, i as int), h),
        decreases orig.len() - i,
    {
        proof {
            assert(o.subrange(0, i + 1).drop_last() =~= o.subrange(0, i as int));
            reveal(Seq::filter);
        }
        if contains_string(healthy, &orig[i]) {
            let s = orig[i].clone();
            let ghost before = filtered@;
            filtered.push(s);
            assert(strings_view(filtered@) =~= strings_view(before).push(s@));
        }
        i = i + 1;
    }
    assert(o.subrange(0, i as int) =~= o);
    filtered
}

/// The parameters of a match started by `cm`: its actors only those that
/// are bound to the engine.
pub fn match_parameters(cm: &CreateMatch, bound: &Vec<String>) -> (p: MatchParameters)
    ensures
        p.match_id@ == cm.match_id@,
        p.width == cm.board_width,
        p.height == cm.board_height,
        p.max_turns == cm.max_turns,
        p.aps_per_turn == cm.aps_per_turn,
        strings_view(p.actors@) == present(strings_view(cm.actors@), strings_view(bound@)),
{
    MatchParameters::new(
        cm.match_id.clone(),
        cm.board_width,
        cm.board_height,
        cm.max_turns,
        cm.aps_per_turn,
        remove_noshows(&cm.actors, bound),
    )
}

/// The event announcing that a match started at `now`.
pub fn match_started(params: &MatchParameters, now: Timestamp) -> (e: ArenaEvent)
    ensures
        e matches ArenaEvent::MatchStarted { match_id, actors, board_height, board_width, start_time }
            && match_id@ == params.match_id@ && strings_view(actors@) == strings_view(params.actors@)
            && board_height == params.height && board_width == params.width && start_time == now,
{
    ArenaEvent::MatchStarted {
        match_id: params.match_id.clone(),
        actors: clone_strings(&params.actors),
        board_height: params.height,
        board_width: params.width,
        start_time: now,
    }
}

/// What a host call asks the provider for.
#[derive(Debug, Clone, Copy, PartialEq, Eq, Structural)]
pub enum HostCall {
    Configure,
    Deconfigure,
    GetDescriptor,
    /// Anything else, or any call not made by the host itself.
    BadDispatch,
}

/// Dispatches a call: only the host (the system actor) may bind or remove
/// an actor or ask for the descriptor.
pub fn dispatch_call(actor: &str, op: &str) -> (r: HostCall)
    ensures
        r == (if actor@ != SYSTEM_ACTOR@ {
            HostCall::BadDispatch
        } else if op@ == OP_BIND_ACTOR@ {
            HostCall::Configure
        } else if op@ == OP_REMOVE_ACTOR@ {
            HostCall::Deconfigure
        } else if op@ == OP_GET_CAPABILITY_DESCRIPTOR@ {
            HostCall::GetDescriptor
        } else {
            HostCall::BadDispatch
        }),
{
    if !crate::text::same_text(actor, SYSTEM_ACTOR) {
        HostCall::BadDispatch
    } else if crate::text::same_text(op, OP_BIND_ACTOR) {
        HostCall::Configure
    } else if crate::text::same_text(op, OP_REMOVE_ACTOR) {
        HostCall::Deconfigure
    } else if crate::text::same_text(op, OP_GET_CAPABILITY_DESCRIPTOR) {
        HostCall::GetDescriptor
    } else {
        HostCall::BadDispatch
    }
}

} // verus!
