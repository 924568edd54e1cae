//! The combat data model: plain state, no behaviour.

use vstd::prelude::*;
use crate::rng::{seeded, SimpleRng};

verus! {

/// High-level map node categories of a run. Only `Battle` and `Boss` are played.
#[derive(Clone, Copy, Debug, PartialEq, Eq, Structural)]
pub enum NodeType {
    Battle,
    Event,
    Shop,
    Rest,
    Boss,
}

/// The two sides of a battle.
#[derive(Clone, Copy, Debug, PartialEq, Eq, Structural)]
pub enum Team {
    Player,
    Enemy,
}

/// The label a team carries in the trace.
pub open spec fn actor_label(team: Team) -> &'static str {
    match team {
        Team::Player => "player",
        Team::Enemy => "enemy",
    }
}

/// The other side.
pub open spec fn opponent_of(team: Team) -> Team {
    match team {
        Team::Player => Team::Enemy,
        Team::Enemy => Team::Player,
    }
}

impl Team {
    /// The team this one fights.
    pub fn opponent(self) -> (r: Team)
        ensures
            r == opponent_of(self),
    {
        match self {
            Team::Player => Team::Enemy,
            Team::Enemy => Team::Player,
        }
    }
}

/// The label of a team in the trace: `"player"` or `"enemy"`.
#[verifier::when_used_as_spec(actor_label)]
pub fn team_to_actor(team: Team) -> (r: &'static str)
    ensures
        r == actor_label(team),
{
    match team {
        Team::Player => "player",
        Team::Enemy => "enemy",
    }
}

/// How a battle ended.
#[derive(Clone, Copy, Debug, PartialEq, Eq, Structural)]
pub enum BattleOutcome {
    Victory,
    Defeat,
}

/// One combatant on the gauge timeline.
///
/// `hp` and `max_hp` are in hundredths of a hit point, `speed` in hundredths of
/// a gauge point per second, `action_gauge` in `1e-8` gauge points.
#[derive(Clone, Copy, Debug)]
pub struct Unit {
    pub id: u32,
    pub team: Team,
    pub hp: i64,
    pub max_hp: i64,
    pub atk: i32,
    pub speed: u32,
    pub action_gauge: u64,
}

impl Unit {
    /// A unit is alive exactly while it has hit points left.
    pub open spec fn alive(&self) -> bool {
        self.hp > 0
    }

    /// Hit points lie between zero and the maximum.
    pub open spec fn hp_in_range(&self) -> bool {
        0 <= self.hp <= self.max_hp
    }

    #[verifier::when_used_as_spec(alive)]
    pub fn is_alive(&self) -> (r: bool)
        ensures
            r == self.alive(),
    {
        self.hp > 0
    }
}

/// The roster and timeline counters of one battle. Roster order is the
/// tie-break and the iteration order of the whole engine.
pub struct BattleState {
    pub units: Vec<Unit>,
    /// Length of one tick of an unattended battle, in milliseconds.
    pub delta_time: u32,
    pub tick: u32,
}

/// What a run carries from one battle to the next.
pub struct RunState {
    pub seed: u64,
    pub rng: SimpleRng,
    pub floor: u32,
    pub stage: u32,
    pub meta_placeholder: u32,
    pub player_hp: i64,
    pub player_max_hp: i64,
    pub player_atk: i32,
    pub player_speed: u32,
}

/// Starting hit points of the player, in hundredths.
pub const PLAYER_START_HP: i64 = 14_000;

/// Attack of the player.
pub const PLAYER_START_ATK: i32 = 17;

/// Speed of the player, in hundredths.
pub const PLAYER_START_SPEED: u32 = 3_500;

impl RunState {
    pub fn new(seed: u64) -> (run: RunState)
        ensures
            run.seed == seed,
            run.rng.state == seeded(seed),
            run.floor == 1,
            run.stage == 0,
            run.meta_placeholder == 0,
            run.player_hp == PLAYER_START_HP,
            run.player_max_hp == PLAYER_START_HP,
            run.player_atk == PLAYER_START_ATK,
            run.player_speed == PLAYER_START_SPEED,
    {
        RunState {
            seed,
            rng: SimpleRng::new(seed),
            floor: 1,
            stage: 0,
            meta_placeholder: 0,
            player_hp: PLAYER_START_HP,
            player_max_hp: PLAYER_START_HP,
            player_atk: PLAYER_START_ATK,
            player_speed: PLAYER_START_SPEED,
        }
    }
}

/// Index of the first unit at or after `from` that belongs to `team` and, if
/// `living` is set, is alive.
pub open spec fn find_unit(units: Seq<Unit>, team: Team, living: bool, from: int) -> Option<int>
    decreases units.len() - from,
{
    if from < 0 || from >= units.len() {
        None
    } else if units[from].team == team && (!living || units[from].alive()) {
        Some(from)
    } else {
        find_unit(units, team, living, from + 1)
    }
}

/// Whether some unit of `team` is alive.
pub open spec fn any_alive(units: Seq<Unit>, team: Team) -> bool {
    find_unit(units, team, true, 0) is Some
}

/// The living units of `team` among the first `n`, by index, in roster order.
pub open spec fn living_of(units: Seq<Unit>, team: Team, n: int) -> Seq<usize>
    decreases n,
{
    if n <= 0 || n > units.len() {
        Seq::empty()
    } else if units[n - 1].team == team && units[n - 1].alive() {
        living_of(units, team, n - 1).push((n - 1) as usize)
    } else {
        living_of(units, team, n - 1)
    }
}

/// The unit a search finds is of the team (and alive, if asked), and no
/// unit before it is; a search that finds none means there is none.
pub proof fn lemma_find_unit(units: Seq<Unit>, team: Team, living: bool, from: int)
    requires
        0 <= from,
    ensures
        find_unit(units, team, living, from) matches Some(i) ==> from <= i < units.len()
            && units[i].team == team && (living ==> units[i].alive()) && forall|j: int|
            from <= j < i ==> !((#[trigger] units[j]).team == team && (!living || units[j].alive())),
        find_unit(units, team, living, from) is None ==> forall|j: int|
            from <= j < units.len() ==> !((#[trigger] units[j]).team == team && (!living
                || units[j].alive())),
    decreases units.len() - from,
{
    if from < units.len() && !(units[from].team == team && (!living || units[from].alive())) {
        lemma_find_unit(units, team, living, from + 1);
    }
}

/// Every index in `living_of` is below `n`, and the list is no longer than `n`.
pub proof fn lemma_living_of(units: Seq<Unit>, team: Team, n: int)
    requires
        0 <= n <= units.len() <= usize::MAX,
    ensures
        living_of(units, team, n).len() <= n,
        forall|k: int|
            0 <= k < living_of(units, team, n).len() ==> {
                let i = #[trigger] living_of(units, team, n)[k];
                i < n && units[i as int].team == team && units[i as int].alive()
            },
    decreases n,
{
    if n > 0 {
        lemma_living_of(units, team, n - 1);
        let prev = living_of(units, team, n - 1);
        let cur = living_of(units, team, n);
        assert forall|k: int| 0 <= k < cur.len() implies {
            let i = #[trigger] cur[k];
            i < n && units[i as int].team == team && units[i as int].alive()
        } by {
            if k < prev.len() {
                assert(cur[k] == prev[k]);
            }
        }
    }
}

/// The list of the living units of a team is empty exactly when none of
/// the first `n` units is a living unit of the team.
pub proof fn lemma_living_of_empty(units: Seq<Unit>, team: Team, n: int)
    requires
        0 <= n <= units.len(),
    ensures
        living_of(units, team, n).len() == 0 <==> forall|j: int|
            0 <= j < n ==> !((#[trigger] units[j]).team == team && units[j].alive()),
    decreases n,
{
    if n > 0 {
        lemma_living_of_empty(units, team, n - 1);
        if units[n - 1].team == team && units[n - 1].alive() {
            assert(living_of(units, team, n).len() > 0);
        } else {
            assert(living_of(units, team, n) == living_of(units, team, n - 1));
            if living_of(units, team, n).len() == 0 {
                assert forall|j: int| 0 <= j < n implies !((#[trigger] units[j]).team == team
                    && units[j].alive()) by {}
            }
        }
    }
}

/// A team has a living unit exactly when the list of its living units is not empty.
pub proof fn lemma_any_alive_is_living(units: Seq<Unit>, team: Team)
    ensures
        any_alive(units, team) <==> living_of(units, team, units.len() as int).len() > 0,
{
    lemma_find_unit(units, team, true, 0);
    lemma_living_of_empty(units, team, units.len() as int);
}

/// Finds the first unit of `team`, among the living ones only if `living` is set.
pub fn find_unit_index(units: &Vec<Unit>, team: Team, living: bool) -> (r: Option<usize>)
    ensures
        r is Some == find_unit(units@, team, living, 0) is Some,
        r matches Some(i) ==> find_unit(units@, team, living, 0) == Some(i as int) && i
            < units@.len(),
{
    let mut i: usize = 0;
    while i < units.len()
        invariant
            i <= units@.len(),
            find_unit(units@, team, living, 0) == find_unit(units@, team, living, i as int),
        decreases units@.len() - i,
    {
        if units[i].team == team && (!living || units[i].is_alive()) {
            return Some(i);
        }
        i = i + 1;
    }
    None
}

/// Whether `team` has a living unit.
pub fn has_alive(units: &Vec<Unit>, team: Team) -> (r: bool)
    ensures
        r == any_alive(units@, team),
{
    find_unit_index(units, team, true).is_some()
}

/// Indices of the living units of `team`, in roster order.
pub fn living_indices(units: &Vec<Unit>, team: Team) -> (r: Vec<usize>)
    ensures
        r@ == living_of(units@, team, units@.len() as int),
        forall|k: int|
            0 <= k < r@.len() ==> (#[trigger] r@[k]) < units@.len() && units@[r@[k] as int].team
                == team && units@[r@[k] as int].alive(),
{
    let mut out: Vec<usize> = Vec::new();
    let mut i: usize = 0;
    while i < units.len()
        invariant
            i <= units@.len(),
            out@ == living_of(units@, team, i as int),
        decreases units@.len() - i,
    {
        if units[i].team == team && units[i].is_alive() {
            out.push(i);
        }
        i = i + 1;
    }
    proof {
        lemma_living_of(units@, team, units@.len() as int);
    }
    out
}

} // verus!
