//! The events the match aggregate emits.

use vstd::prelude::*;
use crate::geometry::Point;
use crate::commands::{MechCommand, MechCommandView};
use crate::radar::{RadarPing, RadarPingView, pings_view, clone_pings};
use crate::registers::{RegisterValue, RegisterValueView};

verus! {

/// What dealt damage to a mech.
#[derive(Debug, PartialEq, Eq)]
pub enum DamageSource {
    Wall,
    MechWeapon(String),
    MechCollision(String),
}

pub enum DamageSourceView {
    Wall,
    MechWeapon(Seq<char>),
    MechCollision(Seq<char>),
}

impl View for DamageSource {
    type V = DamageSourceView;

    open spec fn view(&self) -> DamageSourceView {
        match self {
            DamageSource::Wall => DamageSourceView::Wall,
            DamageSource::MechWeapon(m) => DamageSourceView::MechWeapon(m@),
            DamageSource::MechCollision(m) => DamageSourceView::MechCollision(m@),
        }
    }
}

impl Clone for DamageSource {
    fn clone(&self) -> (r: Self)
        ensures
            r@ == self@,
    {
        match self {
            DamageSource::Wall => DamageSource::Wall,
            DamageSource::MechWeapon(m) => DamageSource::MechWeapon(m.clone()),
            DamageSource::MechCollision(m) => DamageSource::MechCollision(m.clone()),
        }
    }
}

/// Why a match ended.
#[derive(Debug, PartialEq, Eq)]
pub enum EndCause {
    MaxTurnsCompleted { survivors: Vec<String> },
    MechVictory(String),
}

pub enum EndCauseView {
    MaxTurnsCompleted { survivors: Seq<Seq<char>> },
    MechVictory(Seq<char>),
}

pub open spec fn strings_view(s: Seq<String>) -> Seq<Seq<char>> {
    s.map_values(|x: String| x@)
}

/// Clones a list of strings.
pub fn clone_strings(v: &Vec<String>) -> (r: Vec<String>)
    ensures
        strings_view(r@) == strings_view(v@),
{
    let mut out: Vec<String> = Vec::new();
    let mut i: usize = 0;
    while i < v.len()
        invariant
            i <= v.len(),
            strings_view(out@) == strings_view(v@).subrange(0, i as int),
        decreases v.len() - i,
    {
        let s = v[i].clone();
        let ghost before = out@;
        out.push(s);
        assert(strings_view(out@) =~= strings_view(before).push(s@));
        assert(strings_view(v@).subrange(0, i + 1) =~= strings_view(v@).subrange(0, i as int).push(s@));
        i = i + 1;
    }
    assert(strings_view(v@).subrange(0, i as int) =~= strings_view(v@));
    out
}

/// Whether the list of strings holds `s`.
pub fn contains_string(v: &Vec<String>, s: &String) -> (b: bool)
    ensures
        b == strings_view(v@).contains(s@),
{
    let ghost sv = strings_view(v@);
    let mut i: usize = 0;
    while i < v.len()
        invariant
            i <= v.len(),
            sv == strings_view(v@),
            forall|j: int| 0 <= j < i ==> sv[j] != s@,
        decreases v.len() - i,
    {
        if v[i] == *s {
            assert(sv[i as int] == s@);
            return true;
        }
        i = i + 1;
    }
    false
}

impl View for EndCause {
    type V = EndCauseView;

    open spec fn view(&self) -> EndCauseView {
        match self {
            EndCause::MaxTurnsCompleted { survivors } => EndCauseView::MaxTurnsCompleted {
                survivors: strings_view(survivors@),
            },
            EndCause::MechVictory(m) => EndCauseView::MechVictory(m@),
        }
    }
}

impl Clone for EndCause {
    fn clone(&self) -> (r: Self)
        ensures
            r@ == self@,
    {
        match self {
            EndCause::MaxTurnsCompleted { survivors } => EndCause::MaxTurnsCompleted {
                survivors: clone_strings(survivors),
            },
            EndCause::MechVictory(m) => EndCause::MechVictory(m.clone()),
        }
    }
}

/// The events of a match.
#[derive(Debug)]
pub enum GameEvent {
    PositionUpdated { mech: String, position: Point },
    DamageTaken { damage_target: String, damage: u32, damage_source: DamageSource },
    MechDestroyed { damage_target: String, damage_source: DamageSource },
    MechSpawned { mech: String, position: Point, team: String, avatar: String, name: String },
    RadarScanCompleted { actor: String, results: Vec<RadarPing> },
    ActionPointsConsumed { mech: String, points_consumed: u32 },
    ActionPointsExceeded { mech: String, cmd: MechCommand },
    MechTurnCompleted { mech: String, turn: u32 },
    MatchTurnCompleted { new_turn: u32 },
    GameFinished { cause: EndCause },
    RegisterUpdate { mech: String, reg: u32, val: RegisterValue },
}

pub enum GameEventView {
    PositionUpdated { mech: Seq<char>, position: Point },
    DamageTaken { damage_target: Seq<char>, damage: u32, damage_source: DamageSourceView },
    MechDestroyed { damage_target: Seq<char>, damage_source: DamageSourceView },
    MechSpawned { mech: Seq<char>, position: Point, team: Seq<char>, avatar: Seq<char>, name: Seq<char> },
    RadarScanCompleted { actor: Seq<char>, results: Seq<RadarPingView> },
    ActionPointsConsumed { mech: Seq<char>, points_consumed: u32 },
    ActionPointsExceeded { mech: Seq<char>, cmd: MechCommandView },
    MechTurnCompleted { mech: Seq<char>, turn: u32 },
    MatchTurnCompleted { new_turn: u32 },
    GameFinished { cause: EndCauseView },
    RegisterUpdate { mech: Seq<char>, reg: u32, val: RegisterValueView },
}

impl View for GameEvent {
    type V = GameEventView;

    open spec fn view(&self) -> GameEventView {
        match self {
            GameEvent::PositionUpdated { mech, position } => GameEventView::PositionUpdated {
                mech: mech@,
                position: *position,
            },
            GameEvent::DamageTaken { damage_target, damage, damage_source } => GameEventView::DamageTaken {
                damage_target: damage_target@,
                damage: *damage,
                damage_source: damage_source@,
            },
            GameEvent::MechDestroyed { damage_target, damage_source } => GameEventView::MechDestroyed {
                damage_target: damage_target@,
                damage_source: damage_source@,
            },
            GameEvent::MechSpawned { mech, position, team, avatar, name } => GameEventView::MechSpawned {
                mech: mech@,
                position: *position,
                team: team@,
                avatar: avatar@,
                name: name@,
            },
            GameEvent::RadarScanCompleted { actor, results } => GameEventView::RadarScanCompleted {
                actor: actor@,
                results: pings_view(results@),
            },
            GameEvent::ActionPointsConsumed { mech, points_consumed } => GameEventView::ActionPointsConsumed {
                mech: mech@,
                points_consumed: *points_consumed,
            },
            GameEvent::ActionPointsExceeded { mech, cmd } => GameEventView::ActionPointsExceeded {
                mech: mech@,
                cmd: cmd@,
            },
            GameEvent::MechTurnCompleted { mech, turn } => GameEventView::MechTurnCompleted {
                mech: mech@,
                turn: *turn,
            },
            GameEvent::MatchTurnCompleted { new_turn } => GameEventView::MatchTurnCompleted {
                new_turn: *new_turn,
            },
            GameEvent::GameFinished { cause } => GameEventView::GameFinished { cause: cause@ },
            GameEvent::RegisterUpdate { mech, reg, val } => GameEventView::RegisterUpdate {
                mech: mech@,
                reg: *reg,
                val: val@,
            },
        }
    }
}

impl Clone for GameEvent {
    fn clone(&self) -> (r: Self)
        ensures
            r@ == self@,
    {
        match self {
            GameEvent::PositionUpdated { mech, position } => GameEvent::PositionUpdated {
                mech: mech.clone(),
                position: *position,
            },
            GameEvent::DamageTaken { damage_target, damage, damage_source } => GameEvent::DamageTaken {
                damage_target: damage_target.clone(),
                damage: *damage,
                damage_source: damage_source.clone(),
            },
            GameEvent::MechDestroyed { damage_target, damage_source } => GameEvent::MechDestroyed {
                damage_target: damage_target.clone(),
                damage_source: damage_source.clone(),
            },
            GameEvent::MechSpawned { mech, position, team, avatar, name } => GameEvent::MechSpawned {
                mech: mech.clone(),
                position: *position,
                team: team.clone(),
                avatar: avatar.clone(),
                name: name.clone(),
            },
            GameEvent::RadarScanCompleted { actor, results } => GameEvent::RadarScanCompleted {
                actor: actor.clone(),
                results: clone_pings(results),
            },
            GameEvent::ActionPointsConsumed { mech, points_consumed } => GameEvent::ActionPointsConsumed {
                mech: mech.clone(),
                points_consumed: *points_consumed,
            },
            GameEvent::ActionPointsExceeded { mech, cmd } => GameEvent::ActionPointsExceeded {
                mech: mech.clone(),
                cmd: cmd.clone(),
            },
            GameEvent::MechTurnCompleted { mech, turn } => GameEvent::MechTurnCompleted {
                mech: mech.clone(),
                turn: *turn,
            },
            GameEvent::MatchTurnCompleted { new_turn } => GameEvent::MatchTurnCompleted { new_turn: *new_turn },
            GameEvent::GameFinished { cause } => GameEvent::GameFinished { cause: cause.clone() },
            GameEvent::RegisterUpdate { mech, reg, val } => GameEvent::RegisterUpdate {
                mech: mech.clone(),
                reg: *reg,
                val: val.clone(),
            },
        }
    }
}

pub open spec fn events_view(s: Seq<GameEvent>) -> Seq<GameEventView> {
    s.map_values(|e: GameEvent| e@)
}

} // verus!
