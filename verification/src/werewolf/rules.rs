//! What the engine and the game's rules exchange: roles, night actions, and
//! the phases of a game as the engine sees them.
//!
//! The rules of the game are not decided here. Whoever drives the engine asks
//! them and hands the answer over as plain values of these types.

use crate::lists::{contains, copy_vec, distinct, is_subset, same_members, subset};
use vstd::prelude::*;

verus! {

/// The least number of enrolled participants with which a game starts.
pub const MIN_PLAYERS: usize = 6;

/// A side of the game.
#[derive(Debug, Clone, Copy, PartialEq, Eq, Hash, Structural)]
pub enum Faction {
    Village,
    Werewolves,
}

/// A role of the game. Werewolves are ranked, starting at 0.
#[derive(Debug, Clone, Copy, PartialEq, Eq, Hash, Structural)]
pub enum Role {
    Detective,
    Healer,
    Villager,
    Werewolf(usize),
}

/// What a participant does at night: the first field is who acts, the second
/// whom the action is aimed at.
#[derive(Debug, Clone, Copy, PartialEq, Eq, Hash, Structural)]
pub enum NightAction {
    Heal(u64, u64),
    Investigate(u64, u64),
    Kill(u64, u64),
}

impl NightAction {
    /// The participant who acts.
    pub open spec fn source(self) -> u64 {
        match self {
            NightAction::Heal(src, _) => src,
            NightAction::Investigate(src, _) => src,
            NightAction::Kill(src, _) => src,
        }
    }

    /// The participant who acts.
    pub fn src(&self) -> (id: u64)
        ensures
            id == self.source(),
    {
        match *self {
            NightAction::Heal(src, _) => src,
            NightAction::Investigate(src, _) => src,
            NightAction::Kill(src, _) => src,
        }
    }
}

/// One line of the table that is read out each morning, in the order of the
/// players' ranks: the shares, in percent, of the worlds in which the player
/// belongs to the village, to the werewolves or is dead; or, for a player who
/// has died, the side that he was on.
#[derive(Debug, Clone, Copy, PartialEq, Eq, Structural)]
pub enum TableRow {
    Open { village: u8, werewolves: u8, dead: u8 },
    Dead(Faction),
}

/// What a night's investigation found: `player` learns that `target` is on
/// the side `faction`.
#[derive(Debug, Clone, Copy, PartialEq, Eq, Structural)]
pub struct Investigation {
    pub player: u64,
    pub target: u64,
    pub faction: Faction,
}

/// The players of a running game.
#[derive(Debug, Clone)]
pub struct Roster {
    /// All players, in the order of their ranks.
    pub secret_ids: Vec<u64>,
    /// The players who are still alive.
    pub alive: Vec<u64>,
    /// The roles that have become known, by player.
    pub revealed: Vec<(u64, Role)>,
}

/// The players of a running game, as mathematical values.
pub struct RosterModel {
    pub secret_ids: Seq<u64>,
    pub alive: Seq<u64>,
    pub revealed: Seq<(u64, Role)>,
}

impl View for Roster {
    type V = RosterModel;

    open spec fn view(&self) -> RosterModel {
        RosterModel { secret_ids: self.secret_ids@, alive: self.alive@, revealed: self.revealed@ }
    }
}

impl RosterModel {
    /// Nobody is listed twice and only players are alive.
    pub open spec fn wf(self) -> bool {
        &&& self.secret_ids.no_duplicates()
        &&& self.alive.no_duplicates()
        &&& forall|i: int|
            0 <= i < self.alive.len() ==> self.secret_ids.contains(#[trigger] self.alive[i])
    }

    /// The role of `player`, where it has become known.
    pub open spec fn role(self, player: u64) -> Option<Role> {
        role_in(self.revealed, player)
    }
}

impl Roster {
    /// Whether nobody is listed twice and only players are alive.
    pub fn is_valid(&self) -> (ok: bool)
        ensures
            ok == self@.wf(),
    {
        distinct(&self.secret_ids) && distinct(&self.alive) && is_subset(
            &self.alive,
            &self.secret_ids,
        )
    }

    /// Whether this roster can follow a roster with these players and these
    /// living players: the players are the same and nobody has come back to
    /// life.
    pub fn follows(&self, secret_ids: &Vec<u64>, alive: &Vec<u64>) -> (ok: bool)
        ensures
            ok == (self@.secret_ids == secret_ids@ && subset(self@.alive, alive@)),
    {
        same_list(&self.secret_ids, secret_ids) && is_subset(&self.alive, alive)
    }
}

/// Whether the two lists hold the same entries in the same order.
pub fn same_list(a: &Vec<u64>, b: &Vec<u64>) -> (same: bool)
    ensures
        same == (a@ == b@),
{
    if a.len() != b.len() {
        return false;
    }
    let mut i: usize = 0;
    while i < a.len()
        invariant
            i <= a.len(),
            a.len() == b.len(),
            forall|j: int| 0 <= j < i ==> a@[j] == b@[j],
        decreases a.len() - i,
    {
        if a[i] != b[i] {
            return false;
        }
        i += 1;
    }
    assert(a@ =~= b@);
    true
}

/// The role that the first entry for `player` gives.
pub open spec fn role_in(revealed: Seq<(u64, Role)>, player: u64) -> Option<Role>
    decreases revealed.len(),
{
    if revealed.len() == 0 {
        None
    } else if revealed[0].0 == player {
        Some(revealed[0].1)
    } else {
        role_in(revealed.drop_first(), player)
    }
}

/// The stage that a game is in.
#[derive(Debug, Clone)]
pub enum Phase {
    /// Participants enroll; the list keeps the order of enrollment.
    Signups { enrolled: Vec<u64> },
    /// The players submit their night actions.
    Night { roster: Roster },
    /// The players discuss and vote.
    Day { roster: Roster },
    /// The game is over.
    Complete { winners: Vec<u64> },
}

/// The stage that a game is in, as a mathematical value.
pub enum PhaseModel {
    Signups { enrolled: Seq<u64> },
    Night { roster: RosterModel },
    Day { roster: RosterModel },
    Complete { winners: Seq<u64> },
}

impl View for Phase {
    type V = PhaseModel;

    open spec fn view(&self) -> PhaseModel {
        match *self {
            Phase::Signups { enrolled } => PhaseModel::Signups { enrolled: enrolled@ },
            Phase::Night { roster } => PhaseModel::Night { roster: roster@ },
            Phase::Day { roster } => PhaseModel::Day { roster: roster@ },
            Phase::Complete { winners } => PhaseModel::Complete { winners: winners@ },
        }
    }
}

impl PhaseModel {
    /// The phase in which a game begins: signups with nobody enrolled.
    pub open spec fn initial() -> PhaseModel {
        PhaseModel::Signups { enrolled: Seq::empty() }
    }

    /// Nobody is listed twice, and only players are alive.
    pub open spec fn wf(self) -> bool {
        match self {
            PhaseModel::Signups { enrolled } => enrolled.no_duplicates(),
            PhaseModel::Night { roster } => roster.wf(),
            PhaseModel::Day { roster } => roster.wf(),
            PhaseModel::Complete { winners } => true,
        }
    }

    /// The players who are alive, in a phase that has players.
    pub open spec fn alive(self) -> Option<Seq<u64>> {
        match self {
            PhaseModel::Night { roster } => Some(roster.alive),
            PhaseModel::Day { roster } => Some(roster.alive),
            _ => None,
        }
    }

    /// The players in the order of their ranks, in a phase that has players.
    pub open spec fn secret_ids(self) -> Option<Seq<u64>> {
        match self {
            PhaseModel::Night { roster } => Some(roster.secret_ids),
            PhaseModel::Day { roster } => Some(roster.secret_ids),
            _ => None,
        }
    }

    /// The roles that have become known, in a phase that has players.
    pub open spec fn revealed(self) -> Seq<(u64, Role)> {
        match self {
            PhaseModel::Night { roster } => roster.revealed,
            PhaseModel::Day { roster } => roster.revealed,
            _ => Seq::empty(),
        }
    }

    /// Everybody whom the phase holds to the game: the enrolled during
    /// signups, the players of a running game, nobody once it is over.
    pub open spec fn participants(self) -> Set<u64> {
        match self {
            PhaseModel::Signups { enrolled } => enrolled.to_set(),
            PhaseModel::Night { roster } => roster.secret_ids.to_set(),
            PhaseModel::Day { roster } => roster.secret_ids.to_set(),
            PhaseModel::Complete { winners } => Set::empty(),
        }
    }

    /// `who` may act in this phase: a player at night, a living player by
    /// day, nobody otherwise.
    pub open spec fn admits(self, who: u64) -> bool {
        match self {
            PhaseModel::Night { roster } => roster.secret_ids.contains(who),
            PhaseModel::Day { roster } => roster.alive.contains(who),
            _ => false,
        }
    }

    /// `next` can follow this phase when the rules resolve a night or a day:
    /// the players stay the same, nobody comes back to life, and only
    /// players win.
    pub open spec fn resolves_to(self, next: PhaseModel) -> bool {
        &&& self.secret_ids() is Some
        &&& self.alive() is Some
        &&& next.wf()
        &&& match next {
            PhaseModel::Signups { .. } => false,
            PhaseModel::Night { roster } => roster.secret_ids == self.secret_ids()->0 && subset(
                roster.alive,
                self.alive()->0,
            ),
            PhaseModel::Day { roster } => roster.secret_ids == self.secret_ids()->0 && subset(
                roster.alive,
                self.alive()->0,
            ),
            PhaseModel::Complete { winners } => subset(winners, self.secret_ids()->0),
        }
    }

    /// `next` can follow these signups when the rules start the game: the
    /// players are the enrolled, each once.
    pub open spec fn starts_as(self, next: PhaseModel) -> bool {
        &&& self is Signups
        &&& next.wf()
        &&& (next is Night || next is Day)
        &&& same_members(next.secret_ids()->0, self->enrolled)
    }
}

impl Phase {
    /// The phase in which a game begins: signups with nobody enrolled.
    pub fn initial() -> (phase: Phase)
        ensures
            phase@ == PhaseModel::initial(),
    {
        Phase::Signups { enrolled: Vec::new() }
    }

    /// Whether nobody is listed twice and only players are alive.
    pub fn is_valid(&self) -> (ok: bool)
        ensures
            ok == self@.wf(),
    {
        match self {
            Phase::Signups { enrolled } => distinct(enrolled),
            Phase::Night { roster } => roster.is_valid(),
            Phase::Day { roster } => roster.is_valid(),
            Phase::Complete { .. } => true,
        }
    }

    /// The players who are alive, in a phase that has players.
    pub fn alive(&self) -> (list: Option<Vec<u64>>)
        ensures
            list is Some == self@.alive() is Some,
            list is Some ==> list->0@ == self@.alive()->0,
    {
        match self {
            Phase::Night { roster } => Some(copy_vec(&roster.alive)),
            Phase::Day { roster } => Some(copy_vec(&roster.alive)),
            _ => None,
        }
    }

    /// Whether `who` is a player of the running game.
    pub fn is_player(&self, who: u64) -> (found: bool)
        ensures
            found == (self@.secret_ids() is Some && self@.secret_ids()->0.contains(who)),
    {
        match self {
            Phase::Night { roster } => contains(&roster.secret_ids, who),
            Phase::Day { roster } => contains(&roster.secret_ids, who),
            _ => false,
        }
    }

    /// Whether `who` may act in this phase: a player at night, a living
    /// player by day, nobody otherwise.
    pub fn admits(&self, who: u64) -> (ok: bool)
        ensures
            ok == self@.admits(who),
    {
        match self {
            Phase::Night { roster } => contains(&roster.secret_ids, who),
            Phase::Day { roster } => contains(&roster.alive, who),
            _ => false,
        }
    }

    /// Whether the phase holds `who` to the game: as enrolled during
    /// signups, as a player of a running game.
    pub fn holds(&self, who: u64) -> (found: bool)
        ensures
            found == self@.participants().contains(who),
    {
        match self {
            Phase::Signups { enrolled } => contains(enrolled, who),
            Phase::Night { roster } => contains(&roster.secret_ids, who),
            Phase::Day { roster } => contains(&roster.secret_ids, who),
            Phase::Complete { .. } => false,
        }
    }

    /// Whether `next` can follow this phase when the rules resolve a night
    /// or a day.
    pub fn resolves_to(&self, next: &Phase) -> (ok: bool)
        ensures
            ok == self@.resolves_to(next@),
    {
        let (secret_ids, alive) = match self {
            Phase::Night { roster } => (&roster.secret_ids, &roster.alive),
            Phase::Day { roster } => (&roster.secret_ids, &roster.alive),
            _ => {
                return false;
            },
        };
        if !next.is_valid() {
            return false;
        }
        match next {
            Phase::Signups { .. } => false,
            Phase::Night { roster } => roster.follows(secret_ids, alive),
            Phase::Day { roster } => roster.follows(secret_ids, alive),
            Phase::Complete { winners } => is_subset(winners, secret_ids),
        }
    }

    /// Whether `next` can follow these signups when the rules start the
    /// game.
    pub fn starts_as(&self, next: &Phase) -> (ok: bool)
        ensures
            ok == self@.starts_as(next@),
    {
        let enrolled = match self {
            Phase::Signups { enrolled } => enrolled,
            _ => {
                return false;
            },
        };
        if !next.is_valid() {
            return false;
        }
        match next {
            Phase::Night { roster } => is_subset(&roster.secret_ids, enrolled) && is_subset(
                enrolled,
                &roster.secret_ids,
            ),
            Phase::Day { roster } => is_subset(&roster.secret_ids, enrolled) && is_subset(
                enrolled,
                &roster.secret_ids,
            ),
            _ => false,
        }
    }
}

/// What the rules hand back when they start a game or resolve a night or a
/// day.
#[derive(Debug, Clone)]
pub struct Outcome {
    /// The phase that the game is in now.
    pub phase: Phase,
    /// For a day: the table to read out.
    pub table: Vec<TableRow>,
    /// For a day: what the investigations of the night before found.
    pub investigations: Vec<Investigation>,
    /// For a night: whether the rules take it as complete with no action
    /// submitted.
    pub complete: bool,
}

/// The answer of the rules, as a mathematical value.
pub struct OutcomeModel {
    pub phase: PhaseModel,
    pub table: Seq<TableRow>,
    pub investigations: Seq<Investigation>,
    pub complete: bool,
}

impl View for Outcome {
    type V = OutcomeModel;

    open spec fn view(&self) -> OutcomeModel {
        OutcomeModel {
            phase: self.phase@,
            table: self.table@,
            investigations: self.investigations@,
            complete: self.complete,
        }
    }
}

} // verus!
