//! The state of a match: its parameters, its mechs and its turn.

use vstd::prelude::*;
use crate::geometry::{GameBoard, Point};
use crate::events::{EndCause, EndCauseView, strings_view, clone_strings};
use crate::radar::{RadarPing, RadarPingView, pings_view, clone_pings};
use crate::registers::{RegisterValue, RegisterValueView, registers_view, clone_registers, find_register, register_put, distinct_registers};
use crate::seqs::{first_index, lemma_first_index, lemma_first_index_unique};

verus! {

/// Hit points lost when bouncing off a wall or another mech.
pub const WALL_DAMAGE: u32 = 50;
/// Damage of the primary weapon.
pub const PRIMARY_DAMAGE: u32 = 100;
/// Damage of the secondary weapon at the point of impact.
pub const SECONDARY_DAMAGE: u32 = 140;
/// Splash damage of the secondary weapon around the point of impact.
pub const SECONDARY_SPLASH_DAMAGE: u32 = 90;
/// Hit points of a freshly spawned mech.
pub const INITIAL_HEALTH: u32 = 1000;
/// Range of the primary weapon, in grid units.
pub const PRIMARY_RANGE: usize = 3;
/// Range of the secondary weapon, in grid units.
pub const SECONDARY_RANGE: usize = 6;
/// Default action points of a mech per turn.
pub const APS_PER_TURN: u32 = 4;

/// The parameters a match is created with.
#[derive(Debug)]
pub struct MatchParameters {
    pub match_id: String,
    pub width: u32,
    pub height: u32,
    pub actors: Vec<String>,
    pub max_turns: u32,
    pub aps_per_turn: u32,
}

pub struct MatchParametersView {
    pub match_id: Seq<char>,
    pub width: u32,
    pub height: u32,
    pub actors: Seq<Seq<char>>,
    pub max_turns: u32,
    pub aps_per_turn: u32,
}

impl View for MatchParameters {
    type V = MatchParametersView;

    open spec fn view(&self) -> MatchParametersView {
        MatchParametersView {
            match_id: self.match_id@,
            width: self.width,
            height: self.height,
            actors: strings_view(self.actors@),
            max_turns: self.max_turns,
            aps_per_turn: self.aps_per_turn,
        }
    }
}

impl Clone for MatchParameters {
    fn clone(&self) -> (r: Self)
        ensures
            r@ == self@,
    {
        MatchParameters {
            match_id: self.match_id.clone(),
            width: self.width,
            height: self.height,
            actors: clone_strings(&self.actors),
            max_turns: self.max_turns,
            aps_per_turn: self.aps_per_turn,
        }
    }
}

impl Default for MatchParameters {
    fn default() -> (r: Self)
        ensures
            r@.match_id == Seq::<char>::empty(),
            r@.actors == Seq::<Seq<char>>::empty(),
            r.width == 0 && r.height == 0 && r.max_turns == 0 && r.aps_per_turn == 0,
    {
        let r = MatchParameters {
            match_id: String::new(),
            width: 0,
            height: 0,
            actors: Vec::new(),
            max_turns: 0,
            aps_per_turn: 0,
        };
        assert(strings_view(r.actors@) =~= Seq::<Seq<char>>::empty());
        r
    }
}

impl MatchParameters {
    pub fn new(
        match_id: String,
        width: u32,
        height: u32,
        max_turns: u32,
        aps_per_turn: u32,
        actors: Vec<String>,
    ) -> (p: Self)
        ensures
            p.match_id == match_id,
            p.width == width,
            p.height == height,
            p.max_turns == max_turns,
            p.aps_per_turn == aps_per_turn,
            p.actors == actors,
    {
        MatchParameters { match_id, width, height, actors, max_turns, aps_per_turn }
    }
}

/// The progress of the current turn: its number and the mechs that finished it.
#[derive(Debug)]
pub struct TurnStatus {
    pub current: u32,
    pub taken: Vec<String>,
}

pub struct TurnStatusView {
    pub current: u32,
    pub taken: Seq<Seq<char>>,
}

impl View for TurnStatus {
    type V = TurnStatusView;

    open spec fn view(&self) -> TurnStatusView {
        TurnStatusView { current: self.current, taken: strings_view(self.taken@) }
    }
}

impl Clone for TurnStatus {
    fn clone(&self) -> (r: Self)
        ensures
            r@ == self@,
    {
        TurnStatus { current: self.current, taken: clone_strings(&self.taken) }
    }
}

impl Default for TurnStatus {
    fn default() -> (r: Self)
        ensures
            r@.current == 0,
            r@.taken == Seq::<Seq<char>>::empty(),
    {
        let r = TurnStatus { current: 0, taken: Vec::new() };
        assert(strings_view(r.taken@) =~= Seq::<Seq<char>>::empty());
        r
    }
}

/// The state of one mech in a match.
#[derive(Debug)]
pub struct MechState {
    pub id: String,
    pub health: u32,
    pub position: Point,
    pub alive: bool,
    pub victor: bool,
    pub team: String,
    pub avatar: String,
    pub name: String,
    pub remaining_aps: u32,
    pub registers: Vec<(u32, RegisterValue)>,
}

pub struct MechStateView {
    pub id: Seq<char>,
    pub health: u32,
    pub position: Point,
    pub alive: bool,
    pub victor: bool,
    pub team: Seq<char>,
    pub avatar: Seq<char>,
    pub name: Seq<char>,
    pub remaining_aps: u32,
    pub registers: Seq<(u32, RegisterValueView)>,
}

impl View for MechState {
    type V = MechStateView;

    open spec fn view(&self) -> MechStateView {
        MechStateView {
            id: self.id@,
            health: self.health,
            position: self.position,
            alive: self.alive,
            victor: self.victor,
            team: self.team@,
            avatar: self.avatar@,
            name: self.name@,
            remaining_aps: self.remaining_aps,
            registers: registers_view(self.registers@),
        }
    }
}

impl Clone for MechState {
    fn clone(&self) -> (r: Self)
        ensures
            r@ == self@,
    {
        MechState {
            id: self.id.clone(),
            health: self.health,
            position: self.position,
            alive: self.alive,
            victor: self.victor,
            team: self.team.clone(),
            avatar: self.avatar.clone(),
            name: self.name.clone(),
            remaining_aps: self.remaining_aps,
            registers: clone_registers(&self.registers),
        }
    }
}

/// The state a mech is spawned with, holding `aps` action points.
pub open spec fn spawned_mech(
    id: Seq<char>,
    position: Point,
    team: Seq<char>,
    avatar: Seq<char>,
    name: Seq<char>,
    aps: u32,
) -> MechStateView {
    MechStateView {
        id,
        health: INITIAL_HEALTH,
        position,
        alive: true,
        victor: false,
        team,
        avatar,
        name,
        remaining_aps: aps,
        registers: Seq::empty(),
    }
}

impl Default for MechState {
    fn default() -> (m: Self)
        ensures
            m@ == spawned_mech("None"@, Point { x: 0, y: 0 }, "earth"@, "none"@, "Anonymous"@, 4),
    {
        let m = MechState::new(
            INITIAL_HEALTH,
            Point::new(0, 0),
            true,
            false,
            "None".to_string(),
            "earth".to_string(),
            "none".to_string(),
            "Anonymous".to_string(),
            4,
            Vec::new(),
        );
        proof {
            broadcast use vstd::string::group_string_axioms;
            assert(registers_view(m.registers@) =~= Seq::<(u32, RegisterValueView)>::empty());
        }
        m
    }
}

impl MechState {
    pub fn new(
        health: u32,
        position: Point,
        alive: bool,
        victor: bool,
        id: String,
        team: String,
        avatar: String,
        name: String,
        remaining_aps: u32,
        registers: Vec<(u32, RegisterValue)>,
    ) -> (m: Self)
        ensures
            m.health == health,
            m.position == position,
            m.alive == alive,
            m.victor == victor,
            m.id == id,
            m.team == team,
            m.avatar == avatar,
            m.name == name,
            m.remaining_aps == remaining_aps,
            m.registers == registers,
    {
        MechState { health, position, alive, victor, id, team, avatar, name, remaining_aps, registers }
    }
}

pub open spec fn mechs_view(s: Seq<MechState>) -> Seq<MechStateView> {
    s.map_values(|m: MechState| m@)
}

pub open spec fn radar_view(s: Seq<(String, Vec<RadarPing>)>) -> Seq<(Seq<char>, Seq<RadarPingView>)> {
    s.map_values(|e: (String, Vec<RadarPing>)| (e.0@, pings_view(e.1@)))
}

/// The whole state of a match.
#[derive(Debug)]
pub struct MatchState {
    pub parameters: MatchParameters,
    /// The mechs of the match, each under its own id, no id twice.
    pub mechs: Vec<MechState>,
    pub generation: u64,
    pub game_board: GameBoard,
    pub turn_status: TurnStatus,
    pub completed: Option<EndCause>,
    /// The last radar scan of each actor, no actor twice.
    pub radar_pings: Vec<(String, Vec<RadarPing>)>,
}

pub struct MatchStateView {
    pub parameters: MatchParametersView,
    pub mechs: Seq<MechStateView>,
    pub generation: u64,
    pub game_board: GameBoard,
    pub turn_status: TurnStatusView,
    pub completed: Option<EndCauseView>,
    pub radar_pings: Seq<(Seq<char>, Seq<RadarPingView>)>,
}

pub open spec fn option_cause_view(c: Option<EndCause>) -> Option<EndCauseView> {
    match c {
        Some(c) => Some(c@),
        None => None,
    }
}

impl View for MatchState {
    type V = MatchStateView;

    open spec fn view(&self) -> MatchStateView {
        MatchStateView {
            parameters: self.parameters@,
            mechs: mechs_view(self.mechs@),
            generation: self.generation,
            game_board: self.game_board,
            turn_status: self.turn_status@,
            completed: option_cause_view(self.completed),
            radar_pings: radar_view(self.radar_pings@),
        }
    }
}

fn clone_mechs(v: &Vec<MechState>) -> (r: Vec<MechState>)
    ensures
        mechs_view(r@) == mechs_view(v@),
{
    let mut out: Vec<MechState> = Vec::new();
    let mut i: usize = 0;
    while i < v.len()
        invariant
            i <= v.len(),
            mechs_view(out@) == mechs_view(v@).subrange(0, i as int),
        decreases v.len() - i,
    {
        let m = v[i].clone();
        let ghost before = out@;
        out.push(m);
        assert(mechs_view(out@) =~= mechs_view(before).push(m@));
        assert(mechs_view(v@).subrange(0, i + 1) =~= mechs_view(v@).subrange(0, i as int).push(m@));
        i = i + 1;
    }
    assert(mechs_view(v@).subrange(0, i as int) =~= mechs_view(v@));
    out
}

fn clone_radar(v: &Vec<(String, Vec<RadarPing>)>) -> (r: Vec<(String, Vec<RadarPing>)>)
    ensures
        radar_view(r@) == radar_view(v@),
{
    let mut out: Vec<(String, Vec<RadarPing>)> = Vec::new();
    let mut i: usize = 0;
    while i < v.len()
        invariant
            i <= v.len(),
            radar_view(out@) == radar_view(v@).subrange(0, i as int),
        decreases v.len() - i,
    {
        let e = (v[i].0.clone(), clone_pings(&v[i].1));
        let ghost before = out@;
        out.push(e);
        assert(radar_view(out@) =~= radar_view(before).push((e.0@, pings_view(e.1@))));
        assert(radar_view(v@).subrange(0, i + 1) =~= radar_view(v@).subrange(0, i as int).push(
            (e.0@, pings_view(e.1@)),
        ));
        i = i + 1;
    }
    assert(radar_view(v@).subrange(0, i as int) =~= radar_view(v@));
    out
}

impl Clone for MatchState {
    fn clone(&self) -> (r: Self)
        ensures
            r@ == self@,
    {
        let completed = match &self.completed {
            Some(c) => Some(c.clone()),
            None => None,
        };
        MatchState {
            parameters: self.parameters.clone(),
            mechs: clone_mechs(&self.mechs),
            generation: self.generation,
            game_board: self.game_board,
            turn_status: self.turn_status.clone(),
            completed,
            radar_pings: clone_radar(&self.radar_pings),
        }
    }
}

impl Default for MatchState {
    fn default() -> (r: Self)
        ensures
            r@ == empty_match(MatchParametersView {
                match_id: Seq::empty(),
                width: 0,
                height: 0,
                actors: Seq::empty(),
                max_turns: 0,
                aps_per_turn: 0,
            }, GameBoard { width: crate::geometry::DEFAULT_BOARD_WIDTH, height: crate::geometry::DEFAULT_BOARD_HEIGHT }),
    {
        let r = MatchState {
            parameters: MatchParameters::default(),
            mechs: Vec::new(),
            generation: 0,
            game_board: GameBoard::default(),
            turn_status: TurnStatus::default(),
            completed: None,
            radar_pings: Vec::new(),
        };
        assert(mechs_view(r.mechs@) =~= Seq::<MechStateView>::empty());
        assert(radar_view(r.radar_pings@) =~= Seq::<(Seq<char>, Seq<RadarPingView>)>::empty());
        r
    }
}

/// A match with the given parameters and board, before any mech has spawned.
pub open spec fn empty_match(parameters: MatchParametersView, board: GameBoard) -> MatchStateView {
    MatchStateView {
        parameters,
        mechs: Seq::empty(),
        generation: 0,
        game_board: board,
        turn_status: TurnStatusView { current: 0, taken: Seq::empty() },
        completed: None,
        radar_pings: Seq::empty(),
    }
}

/// Whether a mech has the given id.
pub open spec fn has_id(id: Seq<char>) -> spec_fn(MechStateView) -> bool {
    |m: MechStateView| m.id == id
}

/// Whether a mech stands at the given point.
pub open spec fn at_position(p: Point) -> spec_fn(MechStateView) -> bool {
    |m: MechStateView| m.position == p
}

/// The index of the mech with the given id, or -1.
pub open spec fn mech_index(s: MatchStateView, id: Seq<char>) -> int {
    first_index(s.mechs, has_id(id))
}

/// The mech with the given id, if it is in the match.
pub open spec fn find_mech(s: MatchStateView, id: Seq<char>) -> Option<MechStateView> {
    let i = mech_index(s, id);
    if i >= 0 {
        Some(s.mechs[i])
    } else {
        None
    }
}

pub open spec fn has_mech(s: MatchStateView, id: Seq<char>) -> bool {
    mech_index(s, id) >= 0
}

/// The mech standing at `p`, if any (the first one found).
pub open spec fn mech_at(s: MatchStateView, p: Point) -> Option<MechStateView> {
    let i = first_index(s.mechs, at_position(p));
    if i >= 0 {
        Some(s.mechs[i])
    } else {
        None
    }
}

pub open spec fn occupied(s: MatchStateView, p: Point) -> bool {
    mech_at(s, p) is Some
}

/// Applies `f` to the mech with id `id` (if any) and counts a new generation.
pub open spec fn modify_mech(s: MatchStateView, id: Seq<char>, f: spec_fn(MechStateView) -> MechStateView) -> MatchStateView {
    let i = mech_index(s, id);
    MatchStateView {
        mechs: if i >= 0 { s.mechs.update(i, f(s.mechs[i])) } else { s.mechs },
        generation: (s.generation + 1) as u64,
        ..s
    }
}

/// A mech moved to `p`.
pub open spec fn position_to(p: Point) -> spec_fn(MechStateView) -> MechStateView {
    |m: MechStateView| MechStateView { position: p, ..m }
}

/// A mech that took `damage`: it loses that many hit points, down to zero.
pub open spec fn damaged_by(damage: u32) -> spec_fn(MechStateView) -> MechStateView {
    |m: MechStateView| MechStateView {
        health: (m.health - if damage <= m.health { damage } else { m.health }) as u32,
        ..m
    }
}

/// A destroyed mech: not alive, no hit points left.
pub open spec fn destroyed() -> spec_fn(MechStateView) -> MechStateView {
    |m: MechStateView| MechStateView { alive: false, health: 0, ..m }
}

/// Adds the mech `id` in its spawned state; an existing mech with that id is replaced.
pub open spec fn insert_mech(
    s: MatchStateView,
    id: Seq<char>,
    position: Point,
    team: Seq<char>,
    avatar: Seq<char>,
    name: Seq<char>,
) -> MatchStateView {
    let m = spawned_mech(id, position, team, avatar, name, s.parameters.aps_per_turn);
    let i = mech_index(s, id);
    MatchStateView { mechs: if i >= 0 { s.mechs.update(i, m) } else { s.mechs.push(m) }, ..s }
}

/// Records the last radar scan of `actor`, replacing any earlier one.
pub open spec fn update_radar(s: MatchStateView, actor: Seq<char>, pings: Seq<RadarPingView>) -> MatchStateView {
    let i = first_index(s.radar_pings, is_scan_of(actor));
    MatchStateView {
        radar_pings: if i >= 0 {
            s.radar_pings.update(i, (actor, pings))
        } else {
            s.radar_pings.push((actor, pings))
        },
        ..s
    }
}

pub open spec fn is_scan_of(actor: Seq<char>) -> spec_fn((Seq<char>, Seq<RadarPingView>)) -> bool {
    |e: (Seq<char>, Seq<RadarPingView>)| e.0 == actor
}

/// The last radar scan of `actor`, if any.
pub open spec fn radar_of(s: MatchStateView, actor: Seq<char>) -> Option<Seq<RadarPingView>> {
    let i = first_index(s.radar_pings, is_scan_of(actor));
    if i >= 0 {
        Some(s.radar_pings[i].1)
    } else {
        None
    }
}

pub open spec fn finish_game(s: MatchStateView, cause: EndCauseView) -> MatchStateView {
    MatchStateView { completed: Some(cause), ..s }
}

/// The ids of the mechs that are alive, in the order of the match's mechs.
pub open spec fn alive_ids(mechs: Seq<MechStateView>) -> Seq<Seq<char>>
    decreases mechs.len(),
{
    if mechs.len() == 0 {
        Seq::empty()
    } else if mechs.last().alive {
        alive_ids(mechs.drop_last()).push(mechs.last().id)
    } else {
        alive_ids(mechs.drop_last())
    }
}

/// Every mech gets the match's action points per turn again.
pub open spec fn reset_aps(mechs: Seq<MechStateView>, aps: u32) -> Seq<MechStateView> {
    mechs.map_values(|m: MechStateView| MechStateView { remaining_aps: aps, ..m })
}

/// Starts turn `turn`: action points are reset and no mech has finished it yet.
pub open spec fn advance_match_turn(s: MatchStateView, turn: u32) -> MatchStateView {
    MatchStateView {
        mechs: reset_aps(s.mechs, s.parameters.aps_per_turn),
        turn_status: TurnStatusView { current: turn, taken: Seq::empty() },
        ..s
    }
}

/// Marks that `mech` finished the current turn.
pub open spec fn advance_mech_turn(s: MatchStateView, mech: Seq<char>) -> MatchStateView {
    MatchStateView {
        turn_status: TurnStatusView {
            taken: if s.turn_status.taken.contains(mech) { s.turn_status.taken } else { s.turn_status.taken.push(mech) },
            ..s.turn_status
        },
        ..s
    }
}

/// Takes `points` action points from the mech `id`.
pub open spec fn deduct_action_points(s: MatchStateView, id: Seq<char>, points: u32) -> MatchStateView {
    let i = mech_index(s, id);
    MatchStateView {
        mechs: s.mechs.update(i, MechStateView { remaining_aps: (s.mechs[i].remaining_aps - points) as u32, ..s.mechs[i] }),
        ..s
    }
}

/// Stores `val` in register `reg` of the mech `id`.
pub open spec fn update_register(s: MatchStateView, id: Seq<char>, reg: u32, val: RegisterValueView) -> MatchStateView {
    let i = mech_index(s, id);
    MatchStateView {
        mechs: s.mechs.update(i, MechStateView { registers: register_put(s.mechs[i].registers, reg, val), ..s.mechs[i] }),
        ..s
    }
}

/// Whether the mech ids of the match are pairwise distinct.
pub open spec fn distinct_ids(mechs: Seq<MechStateView>) -> bool {
    forall|i: int, j: int| 0 <= i < j < mechs.len() ==> mechs[i].id != mechs[j].id
}

/// Whether the recorded radar scans belong to pairwise distinct actors.
pub open spec fn distinct_scans(scans: Seq<(Seq<char>, Seq<RadarPingView>)>) -> bool {
    forall|i: int, j: int| 0 <= i < j < scans.len() ==> scans[i].0 != scans[j].0
}

/// Whether every mech keeps each register at most once.
pub open spec fn registers_keyed(mechs: Seq<MechStateView>) -> bool {
    forall|i: int| 0 <= i < mechs.len() ==> distinct_registers(#[trigger] mechs[i].registers)
}

/// The shape every match state keeps: mechs, scans and each mech's
/// registers keyed uniquely, the finished-turn list without repeats.
pub open spec fn well_formed(s: MatchStateView) -> bool {
    &&& distinct_ids(s.mechs)
    &&& distinct_scans(s.radar_pings)
    &&& s.turn_status.taken.no_duplicates()
    &&& registers_keyed(s.mechs)
}

impl MatchState {
    pub fn new_with_parameters(params: MatchParameters) -> (s: MatchState)
        ensures
            s@ == empty_match(params@, GameBoard { width: params.width, height: params.height }),
    {
        let height = params.height;
        let width = params.width;
        let s = MatchState {
            parameters: params,
            mechs: Vec::new(),
            generation: 0,
            game_board: GameBoard { height, width },
            completed: None,
            turn_status: TurnStatus::default(),
            radar_pings: Vec::new(),
        };
        assert(mechs_view(s.mechs@) =~= Seq::<MechStateView>::empty());
        assert(radar_view(s.radar_pings@) =~= Seq::<(Seq<char>, Seq<RadarPingView>)>::empty());
        s
    }

    /// The index of the mech with id `id`.
    pub fn index_of_mech(&self, id: &String) -> (r: Option<usize>)
        ensures
            match r {
                Some(i) => i as int == mech_index(self@, id@) && i < self.mechs.len(),
                None => mech_index(self@, id@) == -1,
            },
    {
        let ghost v = self@.mechs;
        let mut i: usize = 0;
        while i < self.mechs.len()
            invariant
                i <= self.mechs.len(),
                v == mechs_view(self.mechs@),
                forall|j: int| 0 <= j < i ==> !has_id(id@)(#[trigger] v[j]),
            decreases self.mechs.len() - i,
        {
            if self.mechs[i].id == *id {
                proof {
                    lemma_first_index_unique(v, has_id(id@), i as int);
                }
                return Some(i);
            }
            i = i + 1;
        }
        proof {
            lemma_first_index(v, has_id(id@));
            let k = first_index(v, has_id(id@));
            if k >= 0 {
                assert(has_id(id@)(v[k]));
            }
        }
        None
    }

    /// Whether the mech `id` is in the match.
    pub fn contains_mech(&self, id: &String) -> (b: bool)
        ensures
            b == has_mech(self@, id@),
    {
        self.index_of_mech(id).is_some()
    }

    /// The mech standing at `position`, if any.
    pub fn mech_at(state: &MatchState, position: &Point) -> (r: Option<MechState>)
        ensures
            match r {
                Some(m) => mech_at(state@, *position) == Some(m@),
                None => mech_at(state@, *position) is None,
            },
    {
        let ghost v = state@.mechs;
        let mut i: usize = 0;
        while i < state.mechs.len()
            invariant
                i <= state.mechs.len(),
                v == mechs_view(state.mechs@),
                forall|j: int| 0 <= j < i ==> !at_position(*position)(#[trigger] v[j]),
            decreases state.mechs.len() - i,
        {
            if state.mechs[i].position == *position {
                proof {
                    lemma_first_index_unique(v, at_position(*position), i as int);
                }
                return Some(state.mechs[i].clone());
            }
            i = i + 1;
        }
        proof {
            lemma_first_index(v, at_position(*position));
            let k = first_index(v, at_position(*position));
            if k >= 0 {
                assert(at_position(*position)(v[k]));
            }
        }
        None
    }

    /// Replaces the mech at index `i`.
    fn replace_mech(&mut self, i: usize, m: MechState)
        requires
            i < old(self).mechs.len(),
        ensures
            final(self)@ == (MatchStateView { mechs: old(self)@.mechs.update(i as int, m@), ..old(self)@ }),
            final(self).mechs@.len() == old(self).mechs@.len(),
            final(self).parameters == old(self).parameters,
    {
        let ghost before = self.mechs@;
        let ghost mv = m@;
        self.mechs.set(i, m);
        assert(mechs_view(self.mechs@) =~= mechs_view(before).update(i as int, mv));
    }

    /// Moves the mech `id` to `position`.
    pub fn set_position(&mut self, id: &String, position: Point)
        requires
            old(self).generation < u64::MAX,
        ensures
            final(self)@ == modify_mech(old(self)@, id@, position_to(position)),
    {
        if let Some(i) = self.index_of_mech(id) {
            let mut m = self.mechs[i].clone();
            m.position = position;
            self.replace_mech(i, m);
        }
        self.generation = self.generation + 1;
    }

    /// The mech `id` loses `damage` hit points, down to zero.
    pub fn take_damage(&mut self, id: &String, damage: u32)
        requires
            old(self).generation < u64::MAX,
        ensures
            final(self)@ == modify_mech(old(self)@, id@, damaged_by(damage)),
    {
        if let Some(i) = self.index_of_mech(id) {
            let mut m = self.mechs[i].clone();
            let lost = if damage <= m.health { damage } else { m.health };
            m.health = m.health - lost;
            self.replace_mech(i, m);
        }
        self.generation = self.generation + 1;
    }

    /// The mech `id` is destroyed: it is no longer alive and has no hit points left.
    pub fn destroy_mech(&mut self, id: &String)
        requires
            old(self).generation < u64::MAX,
        ensures
            final(self)@ == modify_mech(old(self)@, id@, destroyed()),
    {
        if let Some(i) = self.index_of_mech(id) {
            let mut m = self.mechs[i].clone();
            m.alive = false;
            m.health = 0;
            self.replace_mech(i, m);
        }
        self.generation = self.generation + 1;
    }

    /// Adds the mech `id` in its spawned state, replacing any mech with that id.
    pub fn insert_mech(&mut self, id: &String, position: Point, team: &String, avatar: &String, name: &String)
        ensures
            final(self)@ == insert_mech(old(self)@, id@, position, team@, avatar@, name@),
    {
        let m = MechState {
            position,
            id: id.clone(),
            team: team.clone(),
            avatar: avatar.clone(),
            name: name.clone(),
            health: INITIAL_HEALTH,
            alive: true,
            victor: false,
            remaining_aps: self.parameters.aps_per_turn,
            registers: Vec::new(),
        };
        assert(registers_view(m.registers@) =~= Seq::<(u32, RegisterValueView)>::empty());
        match self.index_of_mech(id) {
            Some(i) => self.replace_mech(i, m),
            None => {
                let ghost before = self.mechs@;
                let ghost mv = m@;
                self.mechs.push(m);
                assert(mechs_view(self.mechs@) =~= mechs_view(before).push(mv));
            },
        }
    }

    /// Records the radar scan of `actor`.
    pub fn update_radar(&mut self, actor: &String, pings: &Vec<RadarPing>)
        ensures
            final(self)@ == update_radar(old(self)@, actor@, pings_view(pings@)),
    {
        let ghost v = self@.radar_pings;
        let entry = (actor.clone(), clone_pings(pings));
        let ghost ev = (entry.0@, pings_view(entry.1@));
        let mut i: usize = 0;
        while i < self.radar_pings.len()
            invariant
                i <= self.radar_pings.len(),
                v == radar_view(self.radar_pings@),
                self@ == old(self)@,
                ev == (entry.0@, pings_view(entry.1@)),
                ev == (actor@, pings_view(pings@)),
                forall|j: int| 0 <= j < i ==> !is_scan_of(actor@)(#[trigger] v[j]),
            decreases self.radar_pings.len() - i,
        {
            if self.radar_pings[i].0 == *actor {
                proof {
                    lemma_first_index_unique(v, is_scan_of(actor@), i as int);
                }
                let ghost before = self.radar_pings@;
                self.radar_pings.set(i, entry);
                assert(radar_view(self.radar_pings@) =~= radar_view(before).update(i as int, ev));
                return;
            }
            i = i + 1;
        }
        proof {
            lemma_first_index(v, is_scan_of(actor@));
            let k = first_index(v, is_scan_of(actor@));
            if k >= 0 {
                assert(is_scan_of(actor@)(v[k]));
            }
        }
        let ghost before = self.radar_pings@;
        self.radar_pings.push(entry);
        assert(radar_view(self.radar_pings@) =~= radar_view(before).push(ev));
    }

    /// Records how the match ended.
    pub fn finish_game(&mut self, cause: &EndCause)
        ensures
            final(self)@ == finish_game(old(self)@, cause@),
    {
        self.completed = Some(cause.clone());
    }

    /// The ids of the mechs still alive.
    pub fn remaining_alive(state: &MatchState) -> (ids: Vec<String>)
        ensures
            strings_view(ids@) == alive_ids(state@.mechs),
    {
        let ghost v = state@.mechs;
        let mut ids: Vec<String> = Vec::new();
        let mut i: usize = 0;
        while i < state.mechs.len()
            invariant
                i <= state.mechs.len(),
                v == mechs_view(state.mechs@),
                strings_view(ids@) == alive_ids(v.subrange(0, i as int)),
            decreases state.mechs.len() - i,
        {
            proof {
                assert(v.subrange(0, i + 1).drop_last() =~= v.subrange(0, i as int));
            }
            if state.mechs[i].alive {
                let id = state.mechs[i].id.clone();
                let ghost before = ids@;
                ids.push(id);
                assert(strings_view(ids@) =~= strings_view(before).push(id@));
            }
            i = i + 1;
        }
        assert(v.subrange(0, i as int) =~= v);
        ids
    }

    /// Starts turn `turn`.
    pub fn advance_match_turn(&mut self, turn: u32)
        ensures
            final(self)@ == advance_match_turn(old(self)@, turn),
    {
        let aps = self.parameters.aps_per_turn;
        let ghost v = self@.mechs;
        let mut i: usize = 0;
        while i < self.mechs.len()
            invariant
                i <= self.mechs.len(),
                self.parameters.aps_per_turn == aps,
                self@ == (MatchStateView { mechs: self@.mechs, ..old(self)@ }),
                self@.mechs.len() == v.len(),
                v == old(self)@.mechs,
                forall|j: int| 0 <= j < i ==> #[trigger] self@.mechs[j] == (MechStateView { remaining_aps: aps, ..v[j] }),
                forall|j: int| i <= j < v.len() ==> #[trigger] self@.mechs[j] == v[j],
            decreases self.mechs.len() - i,
        {
            assert(self@.mechs[i as int] == self.mechs@[i as int]@);
            let mut m = self.mechs[i].clone();
            m.remaining_aps = aps;
            assert(m@ == (MechStateView { remaining_aps: aps, ..v[i as int] }));
            self.replace_mech(i, m);
            i = i + 1;
        }
        assert(self@.mechs =~= reset_aps(v, aps));
        self.turn_status.taken = Vec::new();
        self.turn_status.current = turn;
        assert(strings_view(self.turn_status.taken@) =~= Seq::<Seq<char>>::empty());
    }

    /// Marks that `mech` finished the current turn.
    pub fn advance_mech_turn(&mut self, mech: &String)
        ensures
            final(self)@ == advance_mech_turn(old(self)@, mech@),
    {
        let ghost v = self@.turn_status.taken;
        let mut i: usize = 0;
        while i < self.turn_status.taken.len()
            invariant
                i <= self.turn_status.taken.len(),
                v == strings_view(self.turn_status.taken@),
                self@ == old(self)@,
                forall|j: int| 0 <= j < i ==> v[j] != mech@,
            decreases self.turn_status.taken.len() - i,
        {
            if self.turn_status.taken[i] == *mech {
                assert(v[i as int] == mech@);
                return;
            }
            i = i + 1;
        }
        assert(!v.contains(mech@));
        let ghost before = self.turn_status.taken@;
        self.turn_status.taken.push(mech.clone());
        assert(strings_view(self.turn_status.taken@) =~= strings_view(before).push(mech@));
    }

    /// Takes `points` action points from the mech `id`.
    pub fn deduct_mech_action_points(&mut self, id: &String, points: u32)
        requires
            has_mech(old(self)@, id@),
            find_mech(old(self)@, id@).unwrap().remaining_aps >= points,
        ensures
            final(self)@ == deduct_action_points(old(self)@, id@, points),
    {
        let i = self.index_of_mech(id).unwrap();
        let mut m = self.mechs[i].clone();
        m.remaining_aps = m.remaining_aps - points;
        self.replace_mech(i, m);
    }

    /// Stores `val` in register `reg` of the mech `id`.
    pub fn update_register(&mut self, id: &String, reg: u32, val: &RegisterValue)
        requires
            has_mech(old(self)@, id@),
        ensures
            final(self)@ == update_register(old(self)@, id@, reg, val@),
    {
        let i = self.index_of_mech(id).unwrap();
        let mut m = self.mechs[i].clone();
        let ghost regs = m@.registers;
        match find_register(&m.registers, reg) {
            Some(k) => {
                let ghost before = m.registers@;
                m.registers.set(k, (reg, val.clone()));
                assert(registers_view(m.registers@) =~= registers_view(before).update(k as int, (reg, val@)));
            },
            None => {
                let ghost before = m.registers@;
                m.registers.push((reg, val.clone()));
                assert(registers_view(m.registers@) =~= registers_view(before).push((reg, val@)));
            },
        }
        self.replace_mech(i, m);
    }
}

} // verus!
