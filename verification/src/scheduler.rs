//! The arena's schedule of upcoming matches.

use vstd::prelude::*;
use crate::protocol::Timestamp;
use crate::text::same_text;

verus! {

/// The subject on which the schedule is requested.
pub const SUBJECT_REQUEST_SCHEDULE: &'static str = "wasmdome.public.arena.schedule";
/// The subject on which a match is added to the schedule.
pub const SUBJECT_ADD_MATCH: &'static str = "wasmdome.internal.arena.new_match";
/// The subject on which a match is taken off the schedule.
pub const SUBJECT_DEL_MATCH: &'static str = "wasmdome.internal.arena.del_match";
/// The action points per turn of every scheduled match.
pub const SCHEDULED_APS_PER_TURN: u32 = 4;

/// Whether `a` is no later than `b`.
pub open spec fn no_later(a: Timestamp, b: Timestamp) -> bool {
    a.seconds < b.seconds || (a.seconds == b.seconds && a.nanos <= b.nanos)
}

/// A match on the schedule, as it was requested.
#[derive(Debug, Clone, Copy, PartialEq, Eq, Structural)]
pub struct MatchScheduleEntry {
    pub max_actors: u32,
    pub board_height: u32,
    pub board_width: u32,
    pub max_turns: u32,
    pub match_start: Timestamp,
}

/// Names a scheduled match.
#[derive(Debug)]
pub struct MatchIdentifier {
    pub match_id: String,
}

/// A match as the schedule stores it.
#[derive(Debug)]
pub struct StoredMatch {
    pub match_id: String,
    pub entry: MatchScheduleEntry,
    pub aps_per_turn: u32,
}

pub struct StoredMatchView {
    pub match_id: Seq<char>,
    pub entry: MatchScheduleEntry,
    pub aps_per_turn: u32,
}

impl View for StoredMatch {
    type V = StoredMatchView;

    open spec fn view(&self) -> StoredMatchView {
        StoredMatchView { match_id: self.match_id@, entry: self.entry, aps_per_turn: self.aps_per_turn }
    }
}

impl Clone for StoredMatch {
    fn clone(&self) -> (r: Self)
        ensures
            r@ == self@,
    {
        StoredMatch { match_id: self.match_id.clone(), entry: self.entry, aps_per_turn: self.aps_per_turn }
    }
}

pub open spec fn stored_view(s: Seq<StoredMatch>) -> Seq<StoredMatchView> {
    s.map_values(|m: StoredMatch| m@)
}

/// What a message to the scheduler asks for.
#[derive(Debug, Clone, Copy, PartialEq, Eq, Structural)]
pub enum ScheduleRequest {
    GetSchedule,
    AddMatch,
    DelMatch,
    /// Any other subject, which the scheduler refuses.
    Unexpected,
}

/// Routes a message to the scheduler by its subject.
pub fn route(subject: &str) -> (r: ScheduleRequest)
    ensures
        r == (if subject@ == SUBJECT_REQUEST_SCHEDULE@ {
            ScheduleRequest::GetSchedule
        } else if subject@ == SUBJECT_ADD_MATCH@ {
            ScheduleRequest::AddMatch
        } else if subject@ == SUBJECT_DEL_MATCH@ {
            ScheduleRequest::DelMatch
        } else {
            ScheduleRequest::Unexpected
        }),
{
    if same_text(subject, SUBJECT_REQUEST_SCHEDULE) {
        ScheduleRequest::GetSchedule
    } else if same_text(subject, SUBJECT_ADD_MATCH) {
        ScheduleRequest::AddMatch
    } else if same_text(subject, SUBJECT_DEL_MATCH) {
        ScheduleRequest::DelMatch
    } else {
        ScheduleRequest::Unexpected
    }
}

/// The key under which a scheduled match is stored.
pub fn match_key(match_id: &str) -> (k: String)
    ensures
        k@ == sched_key(match_id@),
{
    String::from_str("wasmdome:sched_matches:").concat(match_id)
}

/// The key of the set of scheduled matches.
pub fn match_set_key() -> (k: String)
    ensures
        k@ == "wasmdome:sched_matches"@,
{
    String::from_str("wasmdome:sched_matches")
}

/// The match stored for a schedule entry under a fresh id.
pub fn stored_match(match_id: String, entry: MatchScheduleEntry) -> (m: StoredMatch)
    ensures
        m@ == (StoredMatchView { match_id: match_id@, entry, aps_per_turn: SCHEDULED_APS_PER_TURN }),
{
    StoredMatch { match_id, entry, aps_per_turn: SCHEDULED_APS_PER_TURN }
}

/// The key under which the match `match_id` is stored.
pub open spec fn sched_key(match_id: Seq<char>) -> Seq<char> {
    "wasmdome:sched_matches:"@ + match_id
}

/// What taking a match off the schedule removes: the key of the match, and
/// the member of the set of scheduled matches to remove, which is that
/// same key.
pub fn del_match_keys(id: &MatchIdentifier) -> (r: (String, String))
    ensures
        r.0@ == sched_key(id.match_id@),
        r.1@ == sched_key(id.match_id@),
{
    let key = match_key(id.match_id.as_str());
    let member = key.clone();
    (key, member)
}

/// The schedule's key-value store: the stored matches by key, and the set
/// of scheduled matches.
pub type ScheduleStore = (Map<Seq<char>, StoredMatchView>, Set<Seq<char>>);

/// The store after adding `m`: it is stored under its key and its id joins
/// the set.
pub open spec fn schedule_added(k: ScheduleStore, m: StoredMatchView) -> ScheduleStore {
    (k.0.insert(sched_key(m.match_id), m), k.1.insert(m.match_id))
}

/// The store after taking `match_id` off the schedule with the keys of
/// `del_match_keys`: its stored match goes, and the set loses the member
/// named by the match's key.
pub open spec fn schedule_deleted(k: ScheduleStore, match_id: Seq<char>) -> ScheduleStore {
    (k.0.remove(sched_key(match_id)), k.1.remove(sched_key(match_id)))
}

/// Whether every match in the set has a stored match, so that reading the
/// schedule finds each one.
pub open spec fn schedule_consistent(k: ScheduleStore) -> bool {
    forall|id: Seq<char>| #[trigger] k.1.contains(id) ==> k.0.contains_key(sched_key(id))
}

/// Adding a match stores it under its key, puts its id in the set and keeps
/// every scheduled match readable.
pub proof fn lemma_add_keeps_schedule(k: ScheduleStore, m: StoredMatchView)
    requires
        schedule_consistent(k),
    ensures
        schedule_added(k, m).0[sched_key(m.match_id)] == m,
        schedule_added(k, m).1.contains(m.match_id),
        schedule_consistent(schedule_added(k, m)),
{
}

/// Taking a match off the schedule removes its stored match, and nothing
/// else that is stored. The member it removes from the set is the match's
/// key, not its id, so an id that adding put there stays in the set
/// without a stored match.
pub proof fn lemma_delete_from_schedule(k: ScheduleStore, match_id: Seq<char>)
    ensures
        !schedule_deleted(k, match_id).0.contains_key(sched_key(match_id)),
        forall|key: Seq<char>| key != sched_key(match_id) ==> #[trigger] schedule_deleted(k, match_id).0.contains_key(key) == k.0.contains_key(key),
        k.1.contains(match_id) ==> schedule_deleted(k, match_id).1.contains(match_id),
        k.1.contains(match_id) ==> !schedule_consistent(schedule_deleted(k, match_id)),
{
    reveal_strlit("wasmdome:sched_matches:");
    assert(sched_key(match_id).len() > match_id.len());
    if k.1.contains(match_id) {
        assert(schedule_deleted(k, match_id).1.contains(match_id));
        assert(!schedule_deleted(k, match_id).0.contains_key(sched_key(match_id)));
    }
}

/// `x` inserted into `sorted` after every match that starts no later than
/// it.
pub open spec fn insert_by_start(sorted: Seq<StoredMatchView>, x: StoredMatchView) -> Seq<StoredMatchView>
    decreases sorted.len(),
{
    if sorted.len() == 0 {
        seq![x]
    } else if no_later(sorted.last().entry.match_start, x.entry.match_start) {
        sorted.push(x)
    } else {
        insert_by_start(sorted.drop_last(), x).push(sorted.last())
    }
}

/// The matches in order of their start, those that start together in the
/// order they came in.
pub open spec fn sort_by_start(s: Seq<StoredMatchView>) -> Seq<StoredMatchView>
    decreases s.len(),
{
    if s.len() == 0 {
        s
    } else {
        insert_by_start(sort_by_start(s.drop_last()), s.last())
    }
}

/// Whether the matches are in order of their start.
pub open spec fn sorted_by_start(s: Seq<StoredMatchView>) -> bool {
    forall|i: int, j: int| 0 <= i < j < s.len() ==> no_later(s[i].entry.match_start, s[j].entry.match_start)
}

/// Inserting after the last match that starts no later is inserting at `j`
/// when every match from `j` on starts later and the one before `j` does
/// not.
proof fn lemma_insert_at(sorted: Seq<StoredMatchView>, x: StoredMatchView, j: int)
    requires
        0 <= j <= sorted.len(),
        forall|k: int| j <= k < sorted.len() ==> !no_later(#[trigger] sorted[k].entry.match_start, x.entry.match_start),
        j > 0 ==> no_later(sorted[j - 1].entry.match_start, x.entry.match_start),
    ensures
        insert_by_start(sorted, x) == sorted.subrange(0, j).push(x) + sorted.subrange(j, sorted.len() as int),
    decreases sorted.len(),
{
    if sorted.len() == 0 {
        assert(sorted.subrange(0, j).push(x) + sorted.subrange(j, sorted.len() as int) =~= seq![x]);
    } else if j == sorted.len() {
        assert(sorted.subrange(0, j) =~= sorted);
        assert(sorted.subrange(0, j).push(x) + sorted.subrange(j, sorted.len() as int) =~= sorted.push(x));
    } else {
        let d = sorted.drop_last();
        lemma_insert_at(d, x, j);
        assert(d.subrange(0, j) =~= sorted.subrange(0, j));
        assert((d.subrange(0, j).push(x) + d.subrange(j, d.len() as int)).push(sorted.last())
            =~= sorted.subrange(0, j).push(x) + sorted.subrange(j, sorted.len() as int));
    }
}

/// Sorting keeps the matches in order of their start.
pub proof fn lemma_sort_by_start_sorted(s: Seq<StoredMatchView>)
    ensures
        sorted_by_start(sort_by_start(s)),
        sort_by_start(s).len() == s.len(),
    decreases s.len(),
{
    if s.len() > 0 {
        lemma_sort_by_start_sorted(s.drop_last());
        lemma_insert_sorted(sort_by_start(s.drop_last()), s.last());
    }
}

proof fn lemma_insert_sorted(sorted: Seq<StoredMatchView>, x: StoredMatchView)
    requires
        sorted_by_start(sorted),
    ensures
        sorted_by_start(insert_by_start(sorted, x)),
        insert_by_start(sorted, x).len() == sorted.len() + 1,
        forall|k: int| 0 <= k < insert_by_start(sorted, x).len() ==> {
            ||| #[trigger] insert_by_start(sorted, x)[k] == x
            ||| sorted.contains(insert_by_start(sorted, x)[k])
        },
    decreases sorted.len(),
{
    let r = insert_by_start(sorted, x);
    if sorted.len() > 0 && !no_later(sorted.last().entry.match_start, x.entry.match_start) {
        let d = sorted.drop_last();
        assert(sorted_by_start(d));
        lemma_insert_sorted(d, x);
        let inner = insert_by_start(d, x);
        assert forall|k: int| 0 <= k < inner.len() implies no_later(#[trigger] inner[k].entry.match_start, sorted.last().entry.match_start) by {
            if inner[k] != x {
                let m = choose|m: int| 0 <= m < d.len() && d[m] == inner[k];
                assert(sorted[m] == d[m]);
            }
        }
        assert forall|k: int| 0 <= k < r.len() implies (#[trigger] r[k] == x || sorted.contains(r[k])) by {
            if k < inner.len() {
                if inner[k] != x {
                    let m = choose|m: int| 0 <= m < d.len() && d[m] == inner[k];
                    assert(sorted[m] == inner[k]);
                }
            } else {
                assert(sorted[sorted.len() - 1] == r[k]);
            }
        }
        assert forall|i: int, j: int| 0 <= i < j < r.len() implies no_later(r[i].entry.match_start, r[j].entry.match_start) by {
            if j < inner.len() {
                assert(r[i] == inner[i] && r[j] == inner[j]);
            } else {
                assert(r[i] == inner[i]);
            }
        }
    } else if sorted.len() > 0 {
        assert forall|i: int, j: int| 0 <= i < j < r.len() implies no_later(r[i].entry.match_start, r[j].entry.match_start) by {
            if j < sorted.len() {
                assert(r[i] == sorted[i] && r[j] == sorted[j]);
            } else if i < sorted.len() - 1 {
                assert(no_later(sorted[i].entry.match_start, sorted[sorted.len() - 1].entry.match_start));
            }
        }
        assert forall|k: int| 0 <= k < r.len() implies (#[trigger] r[k] == x || sorted.contains(r[k])) by {
            if k < sorted.len() {
                assert(sorted[k] == r[k]);
            }
        }
    }
}

/// The schedule in order of start, those that start together in the order
/// they came in.
pub fn sort_schedule(matches: Vec<StoredMatch>) -> (r: Vec<StoredMatch>)
    ensures
        stored_view(r@) == sort_by_start(stored_view(matches@)),
{
    let ghost input = stored_view(matches@);
    let mut out: Vec<StoredMatch> = Vec::new();
    let mut i: usize = 0;
    assert(stored_view(out@) =~= sort_by_start(input.subrange(0, 0)));
    while i < matches.len()
        invariant
            i <= matches.len(),
            input == stored_view(matches@),
            input.len() == matches@.len(),
            stored_view(out@) == sort_by_start(input.subrange(0, i as int)),
        decreases matches.len() - i,
    {
        let x = matches[i].clone();
        let ghost sorted = stored_view(out@);
        let mut j: usize = out.len();
        while j > 0 && !(out[j - 1].entry.match_start.seconds < x.entry.match_start.seconds || (
        out[j - 1].entry.match_start.seconds == x.entry.match_start.seconds && out[j - 1].entry.match_start.nanos
            <= x.entry.match_start.nanos))
            invariant
                j <= out@.len(),
                sorted == stored_view(out@),
                forall|k: int| j <= k < sorted.len() ==> !no_later(#[trigger] sorted[k].entry.match_start, x.entry.match_start),
            decreases j,
        {
            assert(sorted[j - 1] == out@[j - 1]@);
            j = j - 1;
        }
        proof {
            if j > 0 {
                assert(sorted[j - 1] == out@[j - 1]@);
            }
            lemma_insert_at(sorted, x@, j as int);
            assert(input.subrange(0, i + 1).drop_last() =~= input.subrange(0, i as int));
            assert(input.subrange(0, i + 1).last() == x@);
        }
        out.insert(j, x);
        assert(stored_view(out@) =~= sorted.subrange(0, j as int).push(x@) + sorted.subrange(j as int, sorted.len() as int));
        i = i + 1;
    }
    assert(input.subrange(0, i as int) =~= input);
    out
}

} // verus!
