//! The leaderboard aggregate: scores of the players, computed from the
//! events of the matches.

use vstd::prelude::*;
use crate::commands::MechCommand;
use crate::engine::CommandError;
use crate::protocol::MatchEvent;
use crate::events::{DamageSource, DamageSourceView, EndCause, EndCauseView, GameEvent, GameEventView, strings_view};
use crate::seqs::{first_index, lemma_first_index, lemma_first_index_unique};

verus! {

/// Points for destroying a mech.
pub const POINTS_DESTROY: usize = 100;
/// Points for winning a match.
pub const POINTS_MATCH_WIN: usize = 10000;
/// Points for surviving a match that ran out of turns.
pub const POINTS_MATCH_SURVIVE: usize = 2000;

/// The record of one player.
#[derive(Debug, Clone, Copy, PartialEq, Eq, Structural)]
pub struct PlayerStats {
    pub score: usize,
    pub wins: usize,
    pub draws: usize,
    pub kills: usize,
    pub deaths: usize,
}

impl Default for PlayerStats {
    fn default() -> (r: Self)
        ensures
            r == zero_stats(),
    {
        PlayerStats { score: 0, wins: 0, draws: 0, kills: 0, deaths: 0 }
    }
}

pub open spec fn zero_stats() -> PlayerStats {
    PlayerStats { score: 0, wins: 0, draws: 0, kills: 0, deaths: 0 }
}

/// What the leaderboard knows of a mech.
#[derive(Debug)]
pub struct MechSummary {
    pub id: String,
    pub name: String,
    pub avatar: String,
    pub team: String,
}

pub struct MechSummaryView {
    pub id: Seq<char>,
    pub name: Seq<char>,
    pub avatar: Seq<char>,
    pub team: Seq<char>,
}

impl View for MechSummary {
    type V = MechSummaryView;

    open spec fn view(&self) -> MechSummaryView {
        MechSummaryView { id: self.id@, name: self.name@, avatar: self.avatar@, team: self.team@ }
    }
}

impl Clone for MechSummary {
    fn clone(&self) -> (r: Self)
        ensures
            r@ == self@,
    {
        MechSummary {
            id: self.id.clone(),
            name: self.name.clone(),
            avatar: self.avatar.clone(),
            team: self.team.clone(),
        }
    }
}

/// The leaderboard: the stats of each player and the summary of each mech,
/// each keyed uniquely.
#[derive(Debug)]
pub struct LeaderboardData {
    pub stats: Vec<(String, PlayerStats)>,
    pub mechs: Vec<MechSummary>,
    pub generation: u64,
}

pub struct LeaderboardDataView {
    pub stats: Seq<(Seq<char>, PlayerStats)>,
    pub mechs: Seq<MechSummaryView>,
    pub generation: u64,
}

pub open spec fn stats_view(s: Seq<(String, PlayerStats)>) -> Seq<(Seq<char>, PlayerStats)> {
    s.map_values(|e: (String, PlayerStats)| (e.0@, e.1))
}

pub open spec fn summaries_view(s: Seq<MechSummary>) -> Seq<MechSummaryView> {
    s.map_values(|m: MechSummary| m@)
}

impl View for LeaderboardData {
    type V = LeaderboardDataView;

    open spec fn view(&self) -> LeaderboardDataView {
        LeaderboardDataView {
            stats: stats_view(self.stats@),
            mechs: summaries_view(self.mechs@),
            generation: self.generation,
        }
    }
}

impl Default for LeaderboardData {
    fn default() -> (r: Self)
        ensures
            r@ == (LeaderboardDataView { stats: Seq::empty(), mechs: Seq::empty(), generation: 0 }),
    {
        let r = LeaderboardData { stats: Vec::new(), mechs: Vec::new(), generation: 0 };
        assert(stats_view(r.stats@) =~= Seq::<(Seq<char>, PlayerStats)>::empty());
        assert(summaries_view(r.mechs@) =~= Seq::<MechSummaryView>::empty());
        r
    }
}

fn clone_leaderboard(d: &LeaderboardData) -> (r: LeaderboardData)
    ensures
        r@ == d@,
{
    let mut stats: Vec<(String, PlayerStats)> = Vec::new();
    let mut i: usize = 0;
    while i < d.stats.len()
        invariant
            i <= d.stats.len(),
            stats_view(stats@) == stats_view(d.stats@).subrange(0, i as int),
        decreases d.stats.len() - i,
    {
        let e = (d.stats[i].0.clone(), d.stats[i].1);
        let ghost before = stats@;
        stats.push(e);
        assert(stats_view(stats@) =~= stats_view(before).push((e.0@, e.1)));
        assert(stats_view(d.stats@).subrange(0, i + 1) =~= stats_view(d.stats@).subrange(0, i as int).push((e.0@, e.1)));
        i = i + 1;
    }
    assert(stats_view(d.stats@).subrange(0, i as int) =~= stats_view(d.stats@));
    let mut mechs: Vec<MechSummary> = Vec::new();
    let mut j: usize = 0;
    while j < d.mechs.len()
        invariant
            j <= d.mechs.len(),
            summaries_view(mechs@) == summaries_view(d.mechs@).subrange(0, j as int),
        decreases d.mechs.len() - j,
    {
        let m = d.mechs[j].clone();
        let ghost before = mechs@;
        mechs.push(m);
        assert(summaries_view(mechs@) =~= summaries_view(before).push(m@));
        assert(summaries_view(d.mechs@).subrange(0, j + 1) =~= summaries_view(d.mechs@).subrange(0, j as int).push(m@));
        j = j + 1;
    }
    assert(summaries_view(d.mechs@).subrange(0, j as int) =~= summaries_view(d.mechs@));
    LeaderboardData { stats, mechs, generation: d.generation }
}

impl Clone for LeaderboardData {
    fn clone(&self) -> (r: Self)
        ensures
            r@ == self@,
    {
        clone_leaderboard(self)
    }
}

// ---------------------------------------------------------------- spec

pub open spec fn is_player(who: Seq<char>) -> spec_fn((Seq<char>, PlayerStats)) -> bool {
    |e: (Seq<char>, PlayerStats)| e.0 == who
}

pub open spec fn is_summary_of(id: Seq<char>) -> spec_fn(MechSummaryView) -> bool {
    |m: MechSummaryView| m.id == id
}

/// The stats of `who`, if the player has any.
pub open spec fn stats_of(stats: Seq<(Seq<char>, PlayerStats)>, who: Seq<char>) -> Option<PlayerStats> {
    let i = first_index(stats, is_player(who));
    if i >= 0 {
        Some(stats[i].1)
    } else {
        None
    }
}

/// Applies `f` to the stats of `who`; a player without stats gets `f` of zero stats.
pub open spec fn credit(
    stats: Seq<(Seq<char>, PlayerStats)>,
    who: Seq<char>,
    f: spec_fn(PlayerStats) -> PlayerStats,
) -> Seq<(Seq<char>, PlayerStats)> {
    let i = first_index(stats, is_player(who));
    if i >= 0 {
        stats.update(i, (who, f(stats[i].1)))
    } else {
        stats.push((who, f(zero_stats())))
    }
}

/// Whether `f` can be applied to the stats of `who` without overflow.
pub open spec fn has_room(stats: Seq<(Seq<char>, PlayerStats)>, who: Seq<char>, points: usize) -> bool {
    match stats_of(stats, who) {
        Some(p) => p.score + points <= usize::MAX && p.kills < usize::MAX && p.deaths < usize::MAX
            && p.wins < usize::MAX && p.draws < usize::MAX,
        None => true,
    }
}

pub open spec fn killed_one() -> spec_fn(PlayerStats) -> PlayerStats {
    |p: PlayerStats| PlayerStats { score: (p.score + POINTS_DESTROY) as usize, kills: (p.kills + 1) as usize, ..p }
}

pub open spec fn died_once() -> spec_fn(PlayerStats) -> PlayerStats {
    |p: PlayerStats| PlayerStats { deaths: (p.deaths + 1) as usize, ..p }
}

pub open spec fn won_one() -> spec_fn(PlayerStats) -> PlayerStats {
    |p: PlayerStats| PlayerStats { score: (p.score + POINTS_MATCH_WIN) as usize, wins: (p.wins + 1) as usize, ..p }
}

pub open spec fn drew_one() -> spec_fn(PlayerStats) -> PlayerStats {
    |p: PlayerStats| PlayerStats { score: (p.score + POINTS_MATCH_SURVIVE) as usize, draws: (p.draws + 1) as usize, ..p }
}

/// A survival is credited to each survivor in turn (twice to one listed twice).
pub open spec fn credit_draws(stats: Seq<(Seq<char>, PlayerStats)>, survivors: Seq<Seq<char>>) -> Seq<(Seq<char>, PlayerStats)>
    decreases survivors.len(),
{
    if survivors.len() == 0 {
        stats
    } else {
        credit(credit_draws(stats, survivors.drop_last()), survivors.last(), drew_one())
    }
}

pub open spec fn draws_fit(stats: Seq<(Seq<char>, PlayerStats)>, survivors: Seq<Seq<char>>) -> bool
    decreases survivors.len(),
{
    if survivors.len() == 0 {
        true
    } else {
        draws_fit(stats, survivors.drop_last()) && has_room(
            credit_draws(stats, survivors.drop_last()),
            survivors.last(),
            POINTS_MATCH_SURVIVE,
        )
    }
}

/// Records the summary of a mech, replacing any earlier one.
pub open spec fn put_summary(mechs: Seq<MechSummaryView>, m: MechSummaryView) -> Seq<MechSummaryView> {
    let i = first_index(mechs, is_summary_of(m.id));
    if i >= 0 {
        mechs.update(i, m)
    } else {
        mechs.push(m)
    }
}

/// Whether applying `e` stays within the machine's integers.
pub open spec fn leaderboard_applicable(d: LeaderboardDataView, e: GameEventView) -> bool {
    match e {
        GameEventView::MechSpawned { .. } => d.generation < u64::MAX,
        GameEventView::MechDestroyed { damage_target, damage_source } => d.generation < u64::MAX && match damage_source {
            DamageSourceView::MechWeapon(attacker) => has_room(d.stats, attacker, POINTS_DESTROY)
                && has_room(credit(d.stats, attacker, killed_one()), damage_target, 0),
            _ => true,
        },
        GameEventView::GameFinished { cause } => match cause {
            EndCauseView::MechVictory(m) => d.generation < u64::MAX && has_room(d.stats, m, POINTS_MATCH_WIN),
            EndCauseView::MaxTurnsCompleted { survivors } => draws_fit(d.stats, survivors),
        },
        _ => true,
    }
}

/// The leaderboard after event `e`: a spawn records the mech's summary; a
/// mech destroyed by a mech's weapon credits the attacker with a kill and
/// the target with a death; a victory credits the winner; a match that ran
/// out of turns credits every survivor with a draw. Other events change
/// nothing.
pub open spec fn leaderboard_applied(d: LeaderboardDataView, e: GameEventView) -> LeaderboardDataView {
    match e {
        GameEventView::MechSpawned { mech, team, avatar, name, .. } => LeaderboardDataView {
            mechs: put_summary(d.mechs, MechSummaryView { id: mech, name, avatar, team }),
            generation: (d.generation + 1) as u64,
            ..d
        },
        GameEventView::MechDestroyed { damage_target, damage_source } => LeaderboardDataView {
            stats: match damage_source {
                DamageSourceView::MechWeapon(attacker) => credit(
                    credit(d.stats, attacker, killed_one()),
                    damage_target,
                    died_once(),
                ),
                _ => d.stats,
            },
            generation: (d.generation + 1) as u64,
            ..d
        },
        GameEventView::GameFinished { cause } => match cause {
            EndCauseView::MechVictory(m) => LeaderboardDataView {
                stats: credit(d.stats, m, won_one()),
                generation: (d.generation + 1) as u64,
                ..d
            },
            EndCauseView::MaxTurnsCompleted { survivors } => LeaderboardDataView {
                stats: credit_draws(d.stats, survivors),
                ..d
            },
        },
        _ => d,
    }
}

// ---------------------------------------------------------------- exec

/// Which way a player's stats change.
enum Credit {
    Kill,
    Death,
    Win,
    Draw,
}

spec fn credit_fn(c: Credit) -> spec_fn(PlayerStats) -> PlayerStats {
    match c {
        Credit::Kill => killed_one(),
        Credit::Death => died_once(),
        Credit::Win => won_one(),
        Credit::Draw => drew_one(),
    }
}

spec fn credit_points(c: Credit) -> usize {
    match c {
        Credit::Kill => POINTS_DESTROY,
        Credit::Death => 0,
        Credit::Win => POINTS_MATCH_WIN,
        Credit::Draw => POINTS_MATCH_SURVIVE,
    }
}

fn credited(p: PlayerStats, c: &Credit) -> (r: PlayerStats)
    requires
        p.score + credit_points(*c) <= usize::MAX,
        p.kills < usize::MAX && p.deaths < usize::MAX && p.wins < usize::MAX && p.draws < usize::MAX,
    ensures
        r == credit_fn(*c)(p),
{
    match c {
        Credit::Kill => PlayerStats { score: p.score + POINTS_DESTROY, kills: p.kills + 1, ..p },
        Credit::Death => PlayerStats { deaths: p.deaths + 1, ..p },
        Credit::Win => PlayerStats { score: p.score + POINTS_MATCH_WIN, wins: p.wins + 1, ..p },
        Credit::Draw => PlayerStats { score: p.score + POINTS_MATCH_SURVIVE, draws: p.draws + 1, ..p },
    }
}

impl LeaderboardData {
    fn credit_player(&mut self, who: &String, c: Credit)
        requires
            has_room(old(self)@.stats, who@, credit_points(c)),
        ensures
            final(self)@ == (LeaderboardDataView { stats: credit(old(self)@.stats, who@, credit_fn(c)), ..old(self)@ }),
    {
        let ghost v = self@.stats;
        let mut i: usize = 0;
        while i < self.stats.len()
            invariant
                i <= self.stats.len(),
                v == stats_view(self.stats@),
                self@ == old(self)@,
                has_room(v, who@, credit_points(c)),
                forall|j: int| 0 <= j < i ==> !is_player(who@)(#[trigger] v[j]),
            decreases self.stats.len() - i,
        {
            if self.stats[i].0 == *who {
                proof {
                    lemma_first_index_unique(v, is_player(who@), i as int);
                }
                assert(v[i as int] == (self.stats@[i as int].0@, self.stats@[i as int].1));
                let p = credited(self.stats[i].1, &c);
                let ghost before = self.stats@;
                self.stats.set(i, (who.clone(), p));
                assert(stats_view(self.stats@) =~= stats_view(before).update(i as int, (who@, p)));
                return;
            }
            i = i + 1;
        }
        proof {
            lemma_first_index(v, is_player(who@));
            let k = first_index(v, is_player(who@));
            if k >= 0 {
                assert(is_player(who@)(v[k]));
            }
        }
        let p = credited(PlayerStats::default(), &c);
        let ghost before = self.stats@;
        self.stats.push((who.clone(), p));
        assert(stats_view(self.stats@) =~= stats_view(before).push((who@, p)));
    }

    fn put_summary(&mut self, m: MechSummary)
        ensures
            final(self)@ == (LeaderboardDataView { mechs: put_summary(old(self)@.mechs, m@), ..old(self)@ }),
    {
        let ghost v = self@.mechs;
        let ghost mv = m@;
        let mut i: usize = 0;
        while i < self.mechs.len()
            invariant
                i <= self.mechs.len(),
                v == summaries_view(self.mechs@),
                self@ == old(self)@,
                mv == m@,
                forall|j: int| 0 <= j < i ==> !is_summary_of(mv.id)(#[trigger] v[j]),
            decreases self.mechs.len() - i,
        {
            if self.mechs[i].id == m.id {
                proof {
                    lemma_first_index_unique(v, is_summary_of(mv.id), i as int);
                }
                let ghost before = self.mechs@;
                self.mechs.set(i, m);
                assert(summaries_view(self.mechs@) =~= summaries_view(before).update(i as int, mv));
                return;
            }
            i = i + 1;
        }
        proof {
            lemma_first_index(v, is_summary_of(mv.id));
            let k = first_index(v, is_summary_of(mv.id));
            if k >= 0 {
                assert(is_summary_of(mv.id)(v[k]));
            }
        }
        let ghost before = self.mechs@;
        self.mechs.push(m);
        assert(summaries_view(self.mechs@) =~= summaries_view(before).push(mv));
    }
}

/// The leaderboard aggregate.
pub struct Leaderboard;

impl Leaderboard {
    /// Applies a match event to the leaderboard.
    pub fn apply_event(state: &LeaderboardData, evt: &GameEvent) -> (r: Result<LeaderboardData, CommandError>)
        requires
            leaderboard_applicable(state@, evt@),
        ensures
            r matches Ok(d) && d@ == leaderboard_applied(state@, evt@),
    {
        match evt {
            GameEvent::MechSpawned { mech, team, avatar, name, .. } => Self::update_mech_map(state, mech, team, avatar, name),
            GameEvent::MechDestroyed { damage_target, damage_source } => Self::score_mech_death(
                state,
                damage_target.clone(),
                damage_source.clone(),
            ),
            GameEvent::GameFinished { cause: EndCause::MechVictory(mech) } => Self::score_victory(state, mech.clone()),
            GameEvent::GameFinished { cause: EndCause::MaxTurnsCompleted { survivors } } => Self::score_draw(
                state,
                crate::events::clone_strings(survivors),
            ),
            _ => Ok(state.clone()),
        }
    }

    /// This aggregate handles no commands.
    pub fn handle_command(_state: &LeaderboardData, _cmd: &MechCommand) -> (r: Result<Vec<GameEvent>, CommandError>)
        ensures
            r matches Ok(v) && v@.len() == 0,
    {
        Ok(Vec::new())
    }

    /// The attacker, if a mech's weapon, is credited with a kill and the
    /// target with a death.
    fn score_mech_death(state: &LeaderboardData, target: String, source: DamageSource) -> (r: Result<LeaderboardData, CommandError>)
        requires
            leaderboard_applicable(state@, GameEventView::MechDestroyed { damage_target: target@, damage_source: source@ }),
        ensures
            r matches Ok(d) && d@ == leaderboard_applied(state@, GameEventView::MechDestroyed { damage_target: target@, damage_source: source@ }),
    {
        let mut s = state.clone();
        if let DamageSource::MechWeapon(attacker) = source {
            s.credit_player(&attacker, Credit::Kill);
            s.credit_player(&target, Credit::Death);
        }
        s.generation = s.generation + 1;
        Ok(s)
    }

    fn update_mech_map(state: &LeaderboardData, mech: &String, team: &String, avatar: &String, name: &String) -> (r: Result<LeaderboardData, CommandError>)
        requires
            state@.generation < u64::MAX,
        ensures
            r matches Ok(d) && d@ == (LeaderboardDataView {
                mechs: put_summary(state@.mechs, MechSummaryView { id: mech@, name: name@, avatar: avatar@, team: team@ }),
                generation: (state@.generation + 1) as u64,
                ..state@
            }),
    {
        let ms = MechSummary { avatar: avatar.clone(), id: mech.clone(), name: name.clone(), team: team.clone() };
        let mut s = state.clone();
        s.put_summary(ms);
        s.generation = s.generation + 1;
        Ok(s)
    }

    fn score_victory(state: &LeaderboardData, mech: String) -> (r: Result<LeaderboardData, CommandError>)
        requires
            state@.generation < u64::MAX,
            has_room(state@.stats, mech@, POINTS_MATCH_WIN),
        ensures
            r matches Ok(d) && d@ == (LeaderboardDataView {
                stats: credit(state@.stats, mech@, won_one()),
                generation: (state@.generation + 1) as u64,
                ..state@
            }),
    {
        let mut s = state.clone();
        s.credit_player(&mech, Credit::Win);
        s.generation = s.generation + 1;
        Ok(s)
    }

    fn score_draw(state: &LeaderboardData, survivors: Vec<String>) -> (r: Result<LeaderboardData, CommandError>)
        requires
            draws_fit(state@.stats, strings_view(survivors@)),
        ensures
            r matches Ok(d) && d@ == (LeaderboardDataView {
                stats: credit_draws(state@.stats, strings_view(survivors@)),
                ..state@
            }),
    {
        let mut s = state.clone();
        let ghost sv = strings_view(survivors@);
        let mut i: usize = 0;
        while i < survivors.len()
            invariant
                i <= survivors.len(),
                sv == strings_view(survivors@),
                draws_fit(state@.stats, sv),
                s@ == (LeaderboardDataView { stats: credit_draws(state@.stats, sv.subrange(0, i as int)), ..state@ }),
            decreases survivors.len() - i,
        {
            proof {
                lemma_draws_fit_prefix(state@.stats, sv, i as int + 1);
                assert(sv.subrange(0, i + 1).drop_last() =~= sv.subrange(0, i as int));
            }
            s.credit_player(&survivors[i], Credit::Draw);
            i = i + 1;
        }
        assert(sv.subrange(0, i as int) =~= sv);
        Ok(s)
    }
}

impl LeaderboardData {
    /// Whether the stats of `who` have room for `points` more and one more
    /// of each count.
    pub fn room_for(&self, who: &String, points: usize) -> (b: bool)
        ensures
            b == has_room(self@.stats, who@, points),
    {
        let ghost v = self@.stats;
        let mut i: usize = 0;
        while i < self.stats.len()
            invariant
                i <= self.stats.len(),
                v == stats_view(self.stats@),
                forall|j: int| 0 <= j < i ==> !is_player(who@)(#[trigger] v[j]),
            decreases self.stats.len() - i,
        {
            if self.stats[i].0 == *who {
                proof {
                    lemma_first_index_unique(v, is_player(who@), i as int);
                }
                assert(v[i as int] == (self.stats@[i as int].0@, self.stats@[i as int].1));
                let p = self.stats[i].1;
                return p.score <= usize::MAX - points && p.kills < usize::MAX && p.deaths < usize::MAX
                    && p.wins < usize::MAX && p.draws < usize::MAX;
            }
            i = i + 1;
        }
        proof {
            lemma_first_index(v, is_player(who@));
            let k = first_index(v, is_player(who@));
            if k >= 0 {
                assert(is_player(who@)(v[k]));
            }
        }
        true
    }
}

impl Leaderboard {
    /// Whether applying `evt` to the leaderboard stays within the machine's
    /// integers.
    pub fn can_apply(state: &LeaderboardData, evt: &GameEvent) -> (b: bool)
        ensures
            b == leaderboard_applicable(state@, evt@),
    {
        match evt {
            GameEvent::MechSpawned { .. } => state.generation < u64::MAX,
            GameEvent::MechDestroyed { damage_target, damage_source } => {
                if state.generation == u64::MAX {
                    return false;
                }
                match damage_source {
                    DamageSource::MechWeapon(attacker) => {
                        if !state.room_for(attacker, POINTS_DESTROY) {
                            return false;
                        }
                        let mut s = state.clone();
                        s.credit_player(attacker, Credit::Kill);
                        s.room_for(damage_target, 0)
                    },
                    _ => true,
                }
            },
            GameEvent::GameFinished { cause } => match cause {
                EndCause::MechVictory(m) => state.generation < u64::MAX && state.room_for(m, POINTS_MATCH_WIN),
                EndCause::MaxTurnsCompleted { survivors } => {
                    let ghost sv = strings_view(survivors@);
                    let mut s = state.clone();
                    let mut i: usize = 0;
                    while i < survivors.len()
                        invariant
                            i <= survivors.len(),
                            sv == strings_view(survivors@),
                            evt@ == (GameEventView::GameFinished { cause: EndCauseView::MaxTurnsCompleted { survivors: sv } }),
                            draws_fit(state@.stats, sv.subrange(0, i as int)),
                            s@ == (LeaderboardDataView { stats: credit_draws(state@.stats, sv.subrange(0, i as int)), ..state@ }),
                        decreases survivors.len() - i,
                    {
                        assert(sv.subrange(0, i + 1).drop_last() =~= sv.subrange(0, i as int));
                        if !s.room_for(&survivors[i], POINTS_MATCH_SURVIVE) {
                            proof {
                                assert(sv.subrange(0, i + 1).last() == sv[i as int]);
                                assert(sv[i as int] == survivors@[i as int]@);
                                if draws_fit(state@.stats, sv) {
                                    lemma_draws_fit_prefix(state@.stats, sv, i as int + 1);
                                }
                            }
                            return false;
                        }
                        s.credit_player(&survivors[i], Credit::Draw);
                        i = i + 1;
                    }
                    assert(sv.subrange(0, i as int) =~= sv);
                    true
                },
            },
            _ => true,
        }
    }
}

/// The subject on which the leaderboard is requested.
pub const ARENA_LEADERBOARD_GET: &'static str = "wasmdome.internal.arena.leaderboard.get";

/// The key under which the leaderboard is stored.
pub const LEADERBOARD_KEY: &'static str = "wasmdome:leaderboard";

/// What a message delivered to the leaderboard asks for.
#[derive(Debug, Clone, Copy, PartialEq, Eq, Structural)]
pub enum LeaderboardRoute {
    MatchEvent,
    GetLeaderboard,
    BadDispatch,
}

/// Routes a message by its subject: the events of a match, a request for
/// the leaderboard, or a refusal.
pub fn route(subject: &str) -> (r: LeaderboardRoute)
    ensures
        r == (if crate::text::has_prefix(subject@, "wasmdome.match."@) && crate::text::has_suffix(subject@, ".events"@) {
            LeaderboardRoute::MatchEvent
        } else if subject@ == ARENA_LEADERBOARD_GET@ {
            LeaderboardRoute::GetLeaderboard
        } else {
            LeaderboardRoute::BadDispatch
        }),
{
    if crate::text::starts_with(subject, "wasmdome.match.") && crate::text::ends_with(subject, ".events") {
        LeaderboardRoute::MatchEvent
    } else if crate::text::same_text(subject, ARENA_LEADERBOARD_GET) {
        LeaderboardRoute::GetLeaderboard
    } else {
        LeaderboardRoute::BadDispatch
    }
}

/// The stored leaderboard, or an empty one when none is stored.
pub open spec fn stored_or_empty(stored: Option<LeaderboardDataView>) -> LeaderboardDataView {
    match stored {
        Some(d) => d,
        None => LeaderboardDataView { stats: Seq::empty(), mechs: Seq::empty(), generation: 0 },
    }
}

pub open spec fn option_view(o: Option<LeaderboardData>) -> Option<LeaderboardDataView> {
    match o {
        Some(d) => Some(d@),
        None => None,
    }
}

/// The leaderboard after a match event: a turn event is applied to the
/// stored leaderboard (or to an empty one); other events leave it as it
/// is. `None` when applying the turn event would overflow a counter.
pub fn record_match_event(stored: Option<LeaderboardData>, evt: &MatchEvent) -> (r: Option<LeaderboardData>)
    ensures
        match evt {
            MatchEvent::TurnEvent { turn_event, .. } => if leaderboard_applicable(stored_or_empty(option_view(stored)), turn_event@) {
                r matches Some(d) && d@ == leaderboard_applied(stored_or_empty(option_view(stored)), turn_event@)
            } else {
                r is None
            },
            _ => r matches Some(d) && d@ == stored_or_empty(option_view(stored)),
        },
{
    let state = match stored {
        Some(d) => d,
        None => LeaderboardData::default(),
    };
    match evt {
        MatchEvent::TurnEvent { turn_event, .. } => {
            if Leaderboard::can_apply(&state, turn_event) {
                match Leaderboard::apply_event(&state, turn_event) {
                    Ok(d) => Some(d),
                    Err(_) => None,
                }
            } else {
                None
            }
        },
        _ => Some(state),
    }
}

proof fn lemma_draws_fit_prefix(stats: Seq<(Seq<char>, PlayerStats)>, survivors: Seq<Seq<char>>, n: int)
    requires
        draws_fit(stats, survivors),
        0 <= n <= survivors.len(),
    ensures
        draws_fit(stats, survivors.subrange(0, n)),
    decreases survivors.len() - n,
{
    if n < survivors.len() {
        lemma_draws_fit_prefix(stats, survivors, n + 1);
        assert(survivors.subrange(0, n + 1).drop_last() =~= survivors.subrange(0, n));
    } else {
        assert(survivors.subrange(0, n) =~= survivors);
    }
}


/// A player's score is exactly what the player's kills, wins and draws are worth.
pub open spec fn score_consistent(p: PlayerStats) -> bool {
    p.score == POINTS_DESTROY * p.kills + POINTS_MATCH_WIN * p.wins + POINTS_MATCH_SURVIVE * p.draws
}

pub open spec fn scores_consistent(stats: Seq<(Seq<char>, PlayerStats)>) -> bool {
    forall|i: int| 0 <= i < stats.len() ==> score_consistent(#[trigger] stats[i].1)
}

/// Whether `f` keeps scores consistent for a player with room for `points`.
spec fn keeps_scores(f: spec_fn(PlayerStats) -> PlayerStats, points: usize) -> bool {
    forall|p: PlayerStats|
        score_consistent(p) && p.score + points <= usize::MAX && p.kills < usize::MAX && p.deaths < usize::MAX
            && p.wins < usize::MAX && p.draws < usize::MAX ==> #[trigger] score_consistent(f(p))
}

proof fn lemma_credits_keep_scores()
    ensures
        keeps_scores(killed_one(), POINTS_DESTROY),
        keeps_scores(died_once(), 0),
        keeps_scores(won_one(), POINTS_MATCH_WIN),
        keeps_scores(drew_one(), POINTS_MATCH_SURVIVE),
{
}

proof fn lemma_credit_keeps_scores(
    stats: Seq<(Seq<char>, PlayerStats)>,
    who: Seq<char>,
    f: spec_fn(PlayerStats) -> PlayerStats,
    points: usize,
)
    requires
        scores_consistent(stats),
        has_room(stats, who, points),
        keeps_scores(f, points),
        points <= POINTS_MATCH_WIN,
    ensures
        scores_consistent(credit(stats, who, f)),
{
    let i = first_index(stats, is_player(who));
    lemma_first_index(stats, is_player(who));
    let t = credit(stats, who, f);
    if i >= 0 {
        assert(score_consistent(stats[i].1));
        assert(score_consistent(f(stats[i].1)));
        assert forall|j: int| 0 <= j < t.len() implies score_consistent(#[trigger] t[j].1) by {
            if j != i {
                assert(score_consistent(stats[j].1));
            }
        }
    } else {
        assert(score_consistent(zero_stats()));
        assert(score_consistent(f(zero_stats())));
        assert forall|j: int| 0 <= j < t.len() implies score_consistent(#[trigger] t[j].1) by {
            if j < stats.len() {
                assert(score_consistent(stats[j].1));
            }
        }
    }
}

proof fn lemma_draws_keep_scores(stats: Seq<(Seq<char>, PlayerStats)>, survivors: Seq<Seq<char>>)
    requires
        scores_consistent(stats),
        draws_fit(stats, survivors),
    ensures
        scores_consistent(credit_draws(stats, survivors)),
    decreases survivors.len(),
{
    if survivors.len() > 0 {
        lemma_draws_keep_scores(stats, survivors.drop_last());
        lemma_credits_keep_scores();
        lemma_credit_keeps_scores(credit_draws(stats, survivors.drop_last()), survivors.last(), drew_one(), POINTS_MATCH_SURVIVE);
    }
}

/// Whether the leaderboard keys its stats by player and its summaries by
/// mech, each at most once.
pub open spec fn leaderboard_keyed(d: LeaderboardDataView) -> bool {
    &&& forall|i: int, j: int| 0 <= i < j < d.stats.len() ==> d.stats[i].0 != d.stats[j].0
    &&& forall|i: int, j: int| 0 <= i < j < d.mechs.len() ==> d.mechs[i].id != d.mechs[j].id
}

proof fn lemma_credit_keyed(stats: Seq<(Seq<char>, PlayerStats)>, who: Seq<char>, f: spec_fn(PlayerStats) -> PlayerStats)
    requires
        forall|i: int, j: int| 0 <= i < j < stats.len() ==> stats[i].0 != stats[j].0,
    ensures
        ({
            let t = credit(stats, who, f);
            forall|i: int, j: int| 0 <= i < j < t.len() ==> t[i].0 != t[j].0
        }),
{
    let t = credit(stats, who, f);
    let k = first_index(stats, is_player(who));
    lemma_first_index(stats, is_player(who));
    assert forall|i: int, j: int| 0 <= i < j < t.len() implies t[i].0 != t[j].0 by {
        if k >= 0 {
            if i == k {
                assert(stats[j].0 != stats[i].0);
            } else if j == k {
                assert(stats[i].0 != stats[j].0);
            }
        } else if j == stats.len() {
            assert(!is_player(who)(stats[i]));
        }
    }
}

proof fn lemma_credit_draws_keyed(stats: Seq<(Seq<char>, PlayerStats)>, survivors: Seq<Seq<char>>)
    requires
        forall|i: int, j: int| 0 <= i < j < stats.len() ==> stats[i].0 != stats[j].0,
    ensures
        ({
            let t = credit_draws(stats, survivors);
            forall|i: int, j: int| 0 <= i < j < t.len() ==> t[i].0 != t[j].0
        }),
    decreases survivors.len(),
{
    if survivors.len() > 0 {
        lemma_credit_draws_keyed(stats, survivors.drop_last());
        lemma_credit_keyed(credit_draws(stats, survivors.drop_last()), survivors.last(), drew_one());
    }
}

/// The leaderboard stays keyed: whatever event it takes, each player has
/// at most one line of stats and each mech at most one summary.
pub proof fn lemma_leaderboard_stays_keyed(d: LeaderboardDataView, e: GameEventView)
    requires
        leaderboard_keyed(d),
    ensures
        leaderboard_keyed(leaderboard_applied(d, e)),
{
    match e {
        GameEventView::MechSpawned { mech, team, avatar, name, .. } => {
            let m = MechSummaryView { id: mech, name, avatar, team };
            let t = put_summary(d.mechs, m);
            let k = first_index(d.mechs, is_summary_of(mech));
            lemma_first_index(d.mechs, is_summary_of(mech));
            assert forall|i: int, j: int| 0 <= i < j < t.len() implies t[i].id != t[j].id by {
                if k >= 0 {
                    if i == k {
                        assert(d.mechs[j].id != d.mechs[i].id);
                    } else if j == k {
                        assert(d.mechs[i].id != d.mechs[j].id);
                    }
                } else if j == d.mechs.len() {
                    assert(!is_summary_of(mech)(d.mechs[i]));
                }
            }
        },
        GameEventView::MechDestroyed { damage_target, damage_source } => {
            if let DamageSourceView::MechWeapon(attacker) = damage_source {
                lemma_credit_keyed(d.stats, attacker, killed_one());
                lemma_credit_keyed(credit(d.stats, attacker, killed_one()), damage_target, died_once());
            }
        },
        GameEventView::GameFinished { cause } => match cause {
            EndCauseView::MechVictory(m) => {
                lemma_credit_keyed(d.stats, m, won_one());
            },
            EndCauseView::MaxTurnsCompleted { survivors } => {
                lemma_credit_draws_keyed(d.stats, survivors);
            },
        },
        _ => {},
    }
}

/// Every player's score is always exactly what the player's kills, wins and
/// draws are worth: each event that changes a score changes the matching
/// count with it.
pub proof fn lemma_scores_stay_consistent(d: LeaderboardDataView, e: GameEventView)
    requires
        scores_consistent(d.stats),
        leaderboard_applicable(d, e),
    ensures
        scores_consistent(leaderboard_applied(d, e).stats),
{
    lemma_credits_keep_scores();
    match e {
        GameEventView::MechDestroyed { damage_target, damage_source } => {
            if let DamageSourceView::MechWeapon(attacker) = damage_source {
                lemma_credit_keeps_scores(d.stats, attacker, killed_one(), POINTS_DESTROY);
                lemma_credit_keeps_scores(credit(d.stats, attacker, killed_one()), damage_target, died_once(), 0);
            }
        },
        GameEventView::GameFinished { cause } => {
            match cause {
                EndCauseView::MechVictory(m) => {
                    lemma_credit_keeps_scores(d.stats, m, won_one(), POINTS_MATCH_WIN);
                },
                EndCauseView::MaxTurnsCompleted { survivors } => {
                    lemma_draws_keep_scores(d.stats, survivors);
                },
            }
        },
        _ => {},
    }
}

/// The stats of `who`, zero when the player has none.
pub open spec fn stats_or_zero(stats: Seq<(Seq<char>, PlayerStats)>, who: Seq<char>) -> PlayerStats {
    match stats_of(stats, who) {
        Some(p) => p,
        None => zero_stats(),
    }
}

/// Crediting `who` changes the stats of `who` by `f` (from zero when it had
/// none) and nobody else's.
proof fn lemma_credit_stats(
    stats: Seq<(Seq<char>, PlayerStats)>,
    who: Seq<char>,
    f: spec_fn(PlayerStats) -> PlayerStats,
    other: Seq<char>,
)
    ensures
        stats_of(credit(stats, who, f), who) == Some(f(stats_or_zero(stats, who))),
        other != who ==> stats_of(credit(stats, who, f), other) == stats_of(stats, other),
{
    let t = credit(stats, who, f);
    let i = first_index(stats, is_player(who));
    lemma_first_index(stats, is_player(who));
    lemma_first_index(stats, is_player(other));
    if i >= 0 {
        assert forall|j: int| 0 <= j < stats.len() implies is_player(who)(#[trigger] stats[j]) == is_player(who)(t[j]) by {}
        crate::seqs::lemma_first_index_preserved(stats, t, is_player(who));
        if other != who {
            assert forall|j: int| 0 <= j < stats.len() implies is_player(other)(#[trigger] stats[j]) == is_player(other)(t[j]) by {}
            crate::seqs::lemma_first_index_preserved(stats, t, is_player(other));
            let k = first_index(stats, is_player(other));
            if k >= 0 {
                assert(k != i);
            }
        }
    } else {
        crate::seqs::lemma_first_index_push(stats, (who, f(zero_stats())), is_player(who));
        if other != who {
            crate::seqs::lemma_first_index_push(stats, (who, f(zero_stats())), is_player(other));
            let k = first_index(stats, is_player(other));
            if k >= 0 {
                assert(t[k] == stats[k]);
            }
        }
    }
}

/// A mech destroyed by another mech's weapon counts one more death for its
/// player (one, if it had no stats yet); a player killed by someone else
/// keeps the rest of its stats, and the stats of players other than the
/// two are unchanged.
pub proof fn lemma_death_is_counted(d: LeaderboardDataView, target: Seq<char>, attacker: Seq<char>, other: Seq<char>)
    requires
        leaderboard_applicable(
            d,
            GameEventView::MechDestroyed { damage_target: target, damage_source: DamageSourceView::MechWeapon(attacker) },
        ),
    ensures
        ({
            let r = leaderboard_applied(
                d,
                GameEventView::MechDestroyed { damage_target: target, damage_source: DamageSourceView::MechWeapon(attacker) },
            );
            let before = stats_or_zero(d.stats, target);
            let after = stats_or_zero(r.stats, target);
            &&& stats_of(r.stats, target) is Some
            &&& after.deaths == before.deaths + 1
            &&& target != attacker ==> after.score == before.score && after.kills == before.kills
                && after.wins == before.wins && after.draws == before.draws
            &&& other != target && other != attacker ==> stats_of(r.stats, other) == stats_of(d.stats, other)
        }),
{
    let mid = credit(d.stats, attacker, killed_one());
    lemma_credit_stats(d.stats, attacker, killed_one(), target);
    lemma_credit_stats(d.stats, attacker, killed_one(), other);
    lemma_credit_stats(mid, target, died_once(), other);
    lemma_credit_stats(mid, target, died_once(), attacker);
    if target == attacker {
        assert(stats_or_zero(mid, target) == killed_one()(stats_or_zero(d.stats, target)));
    } else {
        assert(stats_or_zero(mid, target) == stats_or_zero(d.stats, target));
    }
}

} // verus!
