//! One game: its phase, what the players have submitted and its timers; and
//! the steps that take it from one waiting point to the next.
//!
//! A step never calls the rules of the game and never sends a message. It
//! returns what is to be sent and what it needs next: nothing, a timer, or
//! an answer of the rules, which is handed to the step that takes it.

use crate::lists::{
    ascending,
    copy_vec,
    difference,
    lemma_same_members_len,
    missing,
    sort,
};
use crate::werewolf::laws::{
    lemma_accept,
    lemma_continue_game,
    lemma_day_resolved,
    lemma_game_started,
    lemma_night_resolved,
    lemma_sign_out,
    lemma_sign_up,
    lemma_timeout_fired,
    lemma_timer_dropped,
};
use crate::werewolf::messages::{
    day_breaks,
    day_text,
    death_notice,
    deaths_text,
    discussion_closed,
    discussion_closed_text,
    game_over,
    night_falls,
    night_text,
    probability_table,
    quantum_role_dm,
    role_dm_text,
    starting_soon,
    starting_soon_text,
    table_text,
    winners_text,
};
use crate::werewolf::names::{by_name, order_by_name, PlayerName};
use crate::werewolf::rules::{
    Faction,
    Investigation,
    NightAction,
    Outcome,
    OutcomeModel,
    Phase,
    PhaseModel,
    Role,
    TableRow,
    MIN_PLAYERS,
};
use crate::werewolf::vote::{
    has_majority,
    lemma_listed_leaders,
    resolution,
    tally,
    verdict,
    Resolution,
    Vote,
};
use std::collections::HashMap;
use vstd::prelude::*;

verus! {

broadcast use vstd::std_specs::hash::group_hash_axioms;

/// Seconds for which enrollment stays open once enough have enrolled.
pub const SIGNUP_SECS: u64 = 60;

/// Seconds that a night lasts at most.
pub const NIGHT_SECS: u64 = 180;

/// Seconds that a day lasts at most.
pub const DAY_SECS: u64 = 1800;

/// Something for the messenger to do, in the group of the game.
#[derive(Debug, Clone, PartialEq, Eq)]
pub enum Effect {
    /// Say this in the group.
    Announce(String),
    /// Tell this participant in private.
    Notify(u64, String),
    /// Tell `player` in private what the investigation of `target` found.
    Investigation { player: u64, target: u64, faction: Faction },
    /// Let the players write in the group.
    OpenDiscussion,
    /// Stop the players from writing in the group.
    CloseDiscussion,
    /// Stop everybody else from writing in the group.
    LockChannel,
    /// Let everybody else write in the group again.
    UnlockChannel,
    /// Take the game's role from this participant.
    RemoveRole(u64),
    /// Take the game's role from every member who still holds it.
    ReleaseAll,
    /// These players have died, with the roles that have become known. Once
    /// their names are at hand, `announce_dead` says what is to be done: it
    /// takes the game's role from each and names them in the order of their
    /// names.
    Deaths { dead: Vec<u64>, revealed: Vec<(u64, Role)> },
    /// The game is over and these players have won. Once their names are
    /// at hand, `announce_winners` says what is announced: it names them in
    /// the order of their names.
    Winners(Vec<u64>),
}

/// Something for the messenger to do, as a mathematical value.
pub enum EffectModel {
    Announce(Seq<char>),
    Notify(u64, Seq<char>),
    Investigation { player: u64, target: u64, faction: Faction },
    OpenDiscussion,
    CloseDiscussion,
    LockChannel,
    UnlockChannel,
    RemoveRole(u64),
    ReleaseAll,
    Deaths { dead: Seq<u64>, revealed: Seq<(u64, Role)> },
    Winners(Seq<u64>),
}

impl View for Effect {
    type V = EffectModel;

    open spec fn view(&self) -> EffectModel {
        match *self {
            Effect::Announce(text) => EffectModel::Announce(text@),
            Effect::Notify(who, text) => EffectModel::Notify(who, text@),
            Effect::Investigation { player, target, faction } => EffectModel::Investigation {
                player,
                target,
                faction,
            },
            Effect::OpenDiscussion => EffectModel::OpenDiscussion,
            Effect::CloseDiscussion => EffectModel::CloseDiscussion,
            Effect::LockChannel => EffectModel::LockChannel,
            Effect::UnlockChannel => EffectModel::UnlockChannel,
            Effect::RemoveRole(who) => EffectModel::RemoveRole(who),
            Effect::ReleaseAll => EffectModel::ReleaseAll,
            Effect::Deaths { dead, revealed } => EffectModel::Deaths {
                dead: dead@,
                revealed: revealed@,
            },
            Effect::Winners(winners) => EffectModel::Winners(winners@),
        }
    }
}

/// What each of the effects is.
pub open spec fn effect_views(effects: Seq<Effect>) -> Seq<EffectModel> {
    Seq::new(effects.len(), |i: int| effects[i]@)
}

/// What a step needs before the game can go on.
#[derive(Debug, Clone, PartialEq, Eq)]
pub enum Next {
    /// Nothing: the game waits for its players or for a timer that is
    /// already running.
    Idle,
    /// A timer: after `secs` seconds, tell the game that timer `index` fired.
    Sleep { index: usize, secs: u64 },
    /// The rules are to start the game for the enrolled with these roles.
    Start { roles: Vec<Role> },
    /// The rules are to resolve the night with these actions.
    ResolveNight { actions: Vec<NightAction> },
    /// The rules are to resolve the day in this way.
    ResolveDay { resolution: Resolution },
    /// The answer that was handed in does not follow from the game's phase;
    /// nothing was done.
    Rejected,
}

/// What a step needs, as a mathematical value.
pub enum NextModel {
    Idle,
    Sleep { index: usize, secs: u64 },
    Start { roles: Seq<Role> },
    ResolveNight { actions: Seq<NightAction> },
    ResolveDay { resolution: Resolution },
    Rejected,
}

impl View for Next {
    type V = NextModel;

    open spec fn view(&self) -> NextModel {
        match *self {
            Next::Idle => NextModel::Idle,
            Next::Sleep { index, secs } => NextModel::Sleep { index, secs },
            Next::Start { roles } => NextModel::Start { roles: roles@ },
            Next::ResolveNight { actions } => NextModel::ResolveNight { actions: actions@ },
            Next::ResolveDay { resolution } => NextModel::ResolveDay { resolution },
            Next::Rejected => NextModel::Rejected,
        }
    }
}

/// What a step hands back: what to send, in this order, and what is needed
/// next.
#[derive(Debug, Clone, PartialEq, Eq)]
pub struct Directive {
    pub effects: Vec<Effect>,
    pub next: Next,
}

/// What a step hands back, as a mathematical value.
pub struct DirectiveModel {
    pub effects: Seq<EffectModel>,
    pub next: NextModel,
}

impl View for Directive {
    type V = DirectiveModel;

    open spec fn view(&self) -> DirectiveModel {
        DirectiveModel { effects: effect_views(self.effects@), next: self.next@ }
    }
}

/// How an evaluation of the phase ends.
pub enum Pending {
    /// The game waits for its players; no timer is needed.
    Stable,
    /// The phase is to be looked at again after so many seconds.
    Timer(u64),
    /// The rules have to answer first.
    Ask(NextModel),
}

/// A game and what a step has produced so far.
pub struct Survey {
    pub game: GameModel,
    pub effects: Seq<EffectModel>,
    pub pending: Pending,
}

/// A game after a step and what the step hands back.
pub struct Walk {
    pub game: GameModel,
    pub out: DirectiveModel,
}

/// A game after a step with what the step hands back.
pub open spec fn walk(game: GameModel, out: DirectiveModel) -> Walk {
    Walk { game, out }
}

/// A game with what a step has produced so far.
pub open spec fn survey_of(game: GameModel, effects: Seq<EffectModel>, pending: Pending) -> Survey {
    Survey { game, effects, pending }
}

/// One game, as a mathematical value.
pub struct GameModel {
    /// The group that the game belongs to.
    pub guild: u64,
    /// The stage that the game is in.
    pub phase: PhaseModel,
    /// The living players as they were announced last.
    pub alive: Option<Seq<u64>>,
    /// The night actions that were submitted this night, in order.
    pub night_actions: Seq<NightAction>,
    /// One flag for each timer that was issued: `true` while it is pending.
    pub timeouts: Seq<bool>,
    /// The ballot of each voter.
    pub votes: Map<u64, Vote>,
}

/// The roles with which a game of `players` players starts: two werewolves
/// for every five players, a detective, and with more than four players and
/// `healer` a healer.
pub open spec fn distribution(players: nat, healer: bool) -> Seq<Role> {
    let fixed = Seq::new(players * 2 / 5, |i: int| Role::Werewolf(i as usize)).push(
        Role::Detective,
    );
    if players > 4 && healer {
        fixed.push(Role::Healer)
    } else {
        fixed
    }
}

/// What the start of a day sends: the table, the opening of the discussion
/// and the number of votes that decide.
pub open spec fn day_effects(table: Seq<TableRow>, alive: nat) -> Seq<EffectModel> {
    seq![
        EffectModel::Announce(table_text(table)),
        EffectModel::OpenDiscussion,
        EffectModel::Announce(day_text(alive)),
    ]
}

/// The private notes to the first `upto` players, in the order of their
/// ranks.
pub open spec fn role_notes(players: Seq<u64>, roles: Seq<Role>, upto: int) -> Seq<EffectModel>
    decreases upto,
{
    if upto <= 0 {
        Seq::empty()
    } else {
        role_notes(players, roles, upto - 1).push(
            EffectModel::Notify(
                players[upto - 1],
                role_dm_text(roles, players.len(), (upto - 1) as nat),
            ),
        )
    }
}

/// What the investigations of a night found, one private note each.
pub open spec fn findings(found: Seq<Investigation>) -> Seq<EffectModel> {
    Seq::new(
        found.len(),
        |i: int|
            EffectModel::Investigation {
                player: found[i].player,
                target: found[i].target,
                faction: found[i].faction,
            },
    )
}

/// The loss of the game's role for each of the dead.
pub open spec fn removals(dead: Seq<u64>) -> Seq<EffectModel> {
    Seq::new(dead.len(), |i: int| EffectModel::RemoveRole(dead[i]))
}

/// What is sent about players who have died: in the order of their names,
/// and by discriminator under one name, each loses the game's role, and
/// then one announcement names them all in that order, each with the role
/// where it has become known. Nothing is sent for nobody.
pub open spec fn death_announcement(
    dead: Seq<u64>,
    revealed: Seq<(u64, Role)>,
    names: Seq<PlayerName>,
) -> Seq<EffectModel> {
    if dead.len() == 0 {
        Seq::empty()
    } else {
        removals(by_name(names, dead)).push(
            EffectModel::Announce(deaths_text(by_name(names, dead), revealed)),
        )
    }
}

/// What is announced when the game is over: the winners in the order of
/// their names, and by discriminator under one name.
pub open spec fn winners_announcement(winners: Seq<u64>, names: Seq<PlayerName>) -> Seq<
    EffectModel,
> {
    seq![EffectModel::Announce(winners_text(by_name(names, winners)))]
}

impl GameModel {
    /// A new game: signups with nobody enrolled, nothing submitted, no timer.
    pub open spec fn initial(guild: u64) -> GameModel {
        GameModel {
            guild,
            phase: PhaseModel::initial(),
            alive: None,
            night_actions: Seq::empty(),
            timeouts: Seq::empty(),
            votes: Map::empty(),
        }
    }

    /// The phase is well formed; night actions are held only at night and
    /// ballots only by day; and no timer is pending once the game is over.
    pub open spec fn wf(self) -> bool {
        &&& self.phase.wf()
        &&& (!(self.phase is Night) ==> self.night_actions.len() == 0)
        &&& (!(self.phase is Day) ==> self.votes == Map::<u64, Vote>::empty())
        &&& self.votes.dom().finite()
        &&& (self.phase is Complete ==> !self.timeouts_active())
    }

    /// Some timer is pending.
    pub open spec fn timeouts_active(self) -> bool {
        self.timeouts.contains(true)
    }

    /// Timer `index` is not pending: it was cancelled, has fired, or was
    /// never issued.
    pub open spec fn timeout_cancelled(self, index: int) -> bool {
        !(0 <= index < self.timeouts.len() && self.timeouts[index])
    }

    /// The game with every timer cancelled.
    pub open spec fn cancel_all_timeouts(self) -> GameModel {
        GameModel { timeouts: Seq::new(self.timeouts.len(), |i: int| false), ..self }
    }

    /// The game with timer `index` cancelled.
    pub open spec fn cancel_timeout(self, index: int) -> GameModel {
        GameModel { timeouts: self.timeouts.update(index, false), ..self }
    }

    /// The game with one more timer, which is pending.
    pub open spec fn start_timeout(self) -> GameModel {
        GameModel { timeouts: self.timeouts.push(true), ..self }
    }

    /// The players who have died since the last announcement, in ascending
    /// order.
    pub open spec fn died(self, now_alive: Seq<u64>) -> Seq<u64> {
        match self.alive {
            Some(before) => ascending(missing(before, now_alive)),
            None => Seq::empty(),
        }
    }

    /// What is sent about the players who have died since the last
    /// announcement: where there are any, that they have died, with the
    /// roles that have become known.
    pub open spec fn death_effects(self, now_alive: Option<Seq<u64>>) -> Seq<EffectModel> {
        match now_alive {
            Some(now) => {
                let dead = self.died(now);
                if dead.len() > 0 {
                    seq![EffectModel::Deaths { dead, revealed: self.phase.revealed() }]
                } else {
                    Seq::empty()
                }
            },
            None => Seq::empty(),
        }
    }

    /// The game once the deaths up to `now_alive` are announced.
    pub open spec fn announce_deaths(self, now_alive: Option<Seq<u64>>) -> GameModel {
        GameModel { alive: now_alive, ..self }
    }

    /// Looks at the phase: announces who has died; with too few enrolled it
    /// waits; with enough it waits a minute for more; a night that the rules
    /// take as complete and a day with a majority are to be resolved, others
    /// wait for their time limit; a game that is over is announced and gives
    /// way to new signups.
    pub open spec fn survey(self, complete: bool) -> Survey {
        let deaths = self.death_effects(self.phase.alive());
        let game = self.announce_deaths(self.phase.alive());
        match self.phase {
            PhaseModel::Signups { enrolled } => if enrolled.len() < MIN_PLAYERS {
                Survey { game, effects: deaths, pending: Pending::Stable }
            } else {
                Survey {
                    game,
                    effects: if self.timeouts_active() {
                        deaths
                    } else {
                        deaths.push(EffectModel::Announce(starting_soon_text()))
                    },
                    pending: Pending::Timer(SIGNUP_SECS),
                }
            },
            PhaseModel::Night { roster } => if complete {
                Survey {
                    game,
                    effects: deaths,
                    pending: Pending::Ask(NextModel::ResolveNight { actions: self.night_actions }),
                }
            } else {
                Survey { game, effects: deaths, pending: Pending::Timer(NIGHT_SECS) }
            },
            PhaseModel::Day { roster } => if has_majority(self.votes, roster.alive.len()) {
                Survey {
                    game,
                    effects: deaths,
                    pending: Pending::Ask(
                        NextModel::ResolveDay { resolution: verdict(self.votes) },
                    ),
                }
            } else {
                Survey { game, effects: deaths, pending: Pending::Timer(DAY_SECS) }
            },
            PhaseModel::Complete { winners } => Survey {
                game: GameModel { phase: PhaseModel::initial(), ..game },
                effects: deaths + seq![
                    EffectModel::Winners(ascending(winners)),
                    EffectModel::UnlockChannel,
                    EffectModel::ReleaseAll,
                ],
                pending: Pending::Stable,
            },
        }
    }

    /// Ends a step: where the phase is to be looked at again and no timer is
    /// pending, a new timer is issued; an answer that is needed is asked
    /// for; otherwise nothing is needed.
    pub open spec fn settle(survey: Survey) -> Walk {
        match survey.pending {
            Pending::Stable => Walk {
                game: survey.game,
                out: DirectiveModel { effects: survey.effects, next: NextModel::Idle },
            },
            Pending::Timer(secs) => if survey.game.timeouts_active() {
                Walk {
                    game: survey.game,
                    out: DirectiveModel { effects: survey.effects, next: NextModel::Idle },
                }
            } else {
                Walk {
                    game: survey.game.start_timeout(),
                    out: DirectiveModel {
                        effects: survey.effects,
                        next: NextModel::Sleep {
                            index: survey.game.timeouts.len() as usize,
                            secs,
                        },
                    },
                }
            },
            Pending::Ask(next) => Walk {
                game: survey.game,
                out: DirectiveModel { effects: survey.effects, next },
            },
        }
    }

    /// The step after something has changed: the phase is looked at and the
    /// step is ended.
    pub open spec fn continue_game(self, complete: bool) -> Walk {
        Self::settle(self.survey(complete))
    }

    /// What a time limit means for the phase: signups with enough enrolled
    /// close and the game is to be started; a night or a day is to be
    /// resolved with what has been submitted; anything else is looked at as
    /// usual.
    pub open spec fn expire(self, healer: bool) -> Survey {
        match self.phase {
            PhaseModel::Signups { enrolled } => if enrolled.len() < MIN_PLAYERS {
                self.survey(false)
            } else {
                Survey {
                    game: self,
                    effects: seq![EffectModel::LockChannel],
                    pending: Pending::Ask(
                        NextModel::Start { roles: distribution(enrolled.len(), healer) },
                    ),
                }
            },
            PhaseModel::Night { roster } => Survey {
                game: self,
                effects: Seq::empty(),
                pending: Pending::Ask(NextModel::ResolveNight { actions: self.night_actions }),
            },
            PhaseModel::Day { roster } => Survey {
                game: self,
                effects: Seq::empty(),
                pending: Pending::Ask(NextModel::ResolveDay { resolution: verdict(self.votes) }),
            },
            PhaseModel::Complete { winners } => self.survey(false),
        }
    }

    /// The game after timer `index` was given up: the timer is cancelled.
    /// An index that was never handed out changes nothing.
    pub open spec fn timer_dropped(self, index: int) -> GameModel {
        if 0 <= index < self.timeouts.len() {
            self.cancel_timeout(index)
        } else {
            self
        }
    }

    /// The step when timer `index` fires. A timer that is not pending does
    /// nothing at all. A pending one is used up and its time limit takes
    /// effect.
    pub open spec fn timeout_fired(self, index: int, healer: bool) -> Walk {
        if self.timeout_cancelled(index) {
            Walk {
                game: self,
                out: DirectiveModel { effects: Seq::empty(), next: NextModel::Idle },
            }
        } else {
            Self::settle(self.cancel_timeout(index).expire(healer))
        }
    }

    /// The answer is not taken: nothing changes and nothing is sent.
    pub open spec fn rejected(self) -> Walk {
        Walk {
            game: self,
            out: DirectiveModel { effects: Seq::empty(), next: NextModel::Rejected },
        }
    }

    /// Puts what was sent before the evaluation in front of what the
    /// evaluation sends.
    pub open spec fn after(before: Seq<EffectModel>, walk: Walk) -> Walk {
        Walk {
            game: walk.game,
            out: DirectiveModel { effects: before + walk.out.effects, next: walk.out.next },
        }
    }

    /// The rules can have started this game with `roles` and this outcome.
    pub open spec fn can_start(self, roles: Seq<Role>, outcome: OutcomeModel) -> bool {
        &&& self.phase is Signups
        &&& self.phase->enrolled.len() >= MIN_PLAYERS
        &&& self.phase.starts_as(outcome.phase)
        &&& roles.len() <= outcome.phase.secret_ids()->0.len()
    }

    /// What the start of the game sends: each player's private note, then
    /// the opening of the night or of the day.
    pub open spec fn start_effects(roles: Seq<Role>, outcome: OutcomeModel) -> Seq<EffectModel> {
        let players = outcome.phase.secret_ids()->0;
        role_notes(players, roles, players.len() as int) + match outcome.phase {
            PhaseModel::Night { roster } => seq![EffectModel::Announce(night_text())],
            PhaseModel::Day { roster } => day_effects(outcome.table, roster.alive.len()),
            _ => Seq::empty(),
        }
    }

    /// The step when the rules have started the game: the players are told
    /// their roles, the first phase is opened and looked at.
    pub open spec fn game_started(self, roles: Seq<Role>, outcome: OutcomeModel) -> Walk {
        if !self.can_start(roles, outcome) {
            self.rejected()
        } else {
            Self::after(
                Self::start_effects(roles, outcome),
                GameModel { phase: outcome.phase, ..self }.continue_game(outcome.complete),
            )
        }
    }

    /// What the end of a night sends: with a day following, what the
    /// investigations found and the opening of the day.
    pub open spec fn night_effects(outcome: OutcomeModel) -> Seq<EffectModel> {
        match outcome.phase {
            PhaseModel::Day { roster } => findings(outcome.investigations) + day_effects(
                outcome.table,
                roster.alive.len(),
            ),
            _ => Seq::empty(),
        }
    }

    /// The game as a resolved night leaves it: every timer cancelled, no
    /// night action held, in the phase that the rules gave.
    pub open spec fn resolve_night(self, outcome: OutcomeModel) -> GameModel {
        GameModel {
            phase: outcome.phase,
            night_actions: Seq::empty(),
            ..self.cancel_all_timeouts()
        }
    }

    /// The step when the rules have resolved the night.
    pub open spec fn night_resolved(self, outcome: OutcomeModel) -> Walk {
        if !(self.phase is Night && self.phase.resolves_to(outcome.phase)) {
            self.rejected()
        } else {
            Self::after(
                Self::night_effects(outcome),
                self.resolve_night(outcome).continue_game(outcome.complete),
            )
        }
    }

    /// The game as a resolved day leaves it, before the deaths are
    /// announced: every timer cancelled, no ballot held, in the phase that
    /// the rules gave.
    pub open spec fn day_closed(self, outcome: OutcomeModel) -> GameModel {
        GameModel { phase: outcome.phase, votes: Map::empty(), ..self.cancel_all_timeouts() }
    }

    /// The game as a resolved day leaves it.
    pub open spec fn resolve_day(self, outcome: OutcomeModel) -> GameModel {
        self.day_closed(outcome).announce_deaths(outcome.phase.alive())
    }

    /// What the end of a day sends: the discussion closes, the dead are
    /// announced and, with a night following, the night is opened.
    pub open spec fn day_end_effects(self, outcome: OutcomeModel) -> Seq<EffectModel> {
        seq![EffectModel::CloseDiscussion, EffectModel::Announce(discussion_closed_text())]
            + self.day_closed(outcome).death_effects(outcome.phase.alive()) + if outcome.phase
            is Night {
            seq![EffectModel::Announce(night_text())]
        } else {
            Seq::empty()
        }
    }

    /// The step when the rules have resolved the day.
    pub open spec fn day_resolved(self, outcome: OutcomeModel) -> Walk {
        if !(self.phase is Day && self.phase.resolves_to(outcome.phase)) {
            self.rejected()
        } else {
            Self::after(
                self.day_end_effects(outcome),
                self.resolve_day(outcome).continue_game(outcome.complete),
            )
        }
    }
}

/// What a participant submits to a running game.
#[derive(Debug, Clone, Copy, PartialEq, Eq, Structural)]
pub enum Action {
    /// An action of the night.
    Night(NightAction),
    /// The ballot of the first field for the second.
    Vote(u64, Vote),
    /// The withdrawal of a ballot.
    Unvote(u64),
}

impl Action {
    /// The participant who submits the action.
    pub open spec fn source(self) -> u64 {
        match self {
            Action::Night(action) => action.source(),
            Action::Vote(src, _) => src,
            Action::Unvote(src) => src,
        }
    }

    /// The participant who submits the action.
    pub fn src(&self) -> (id: u64)
        ensures
            id == self.source(),
    {
        match *self {
            Action::Night(ref action) => action.src(),
            Action::Vote(src, _) | Action::Unvote(src) => src,
        }
    }
}

/// Why an action was not taken.
#[derive(Debug, Clone, Copy, PartialEq, Eq, Structural)]
pub enum ActionError {
    /// The participant is a player of no game, or of several.
    NotInOneGame,
    /// It is night and the participant is no player of this game.
    NotPlaying,
    /// It is night: there is nothing to vote on.
    NoVoteOpen,
    /// It is day and the participant is not alive.
    DeadCannotVote,
    /// It is day: night actions are not taken.
    ItIsDay,
    /// The game has not started or is over.
    NoGameRunning,
}

/// Why an enrollment or a withdrawal was not taken.
#[derive(Debug, Clone, Copy, PartialEq, Eq, Structural)]
pub enum SignupError {
    /// The participant is held to the game of another group.
    InOtherGame,
    /// The participant is enrolled already.
    AlreadySignedUp,
    /// The participant was not enrolled.
    NotSignedUp,
    /// The game is running.
    GameRunning,
}

impl GameModel {
    /// The game with the action taken, or why it is not taken. At night a
    /// player's night action joins those that are held. By day a living
    /// player's ballot replaces the one he had, and his withdrawal removes
    /// it. Everything else is refused.
    pub open spec fn accept(self, action: Action) -> Result<GameModel, ActionError> {
        match self.phase {
            PhaseModel::Night { roster } => match action {
                Action::Night(night_action) => if roster.secret_ids.contains(
                    night_action.source(),
                ) {
                    Ok(GameModel { night_actions: self.night_actions.push(night_action), ..self })
                } else {
                    Err(ActionError::NotPlaying)
                },
                _ => Err(ActionError::NoVoteOpen),
            },
            PhaseModel::Day { roster } => match action {
                Action::Vote(src, vote) => if roster.alive.contains(src) {
                    Ok(GameModel { votes: self.votes.insert(src, vote), ..self })
                } else {
                    Err(ActionError::DeadCannotVote)
                },
                Action::Unvote(src) => if roster.alive.contains(src) {
                    Ok(GameModel { votes: self.votes.remove(src), ..self })
                } else {
                    Err(ActionError::DeadCannotVote)
                },
                Action::Night(_) => Err(ActionError::ItIsDay),
            },
            _ => Err(ActionError::NoGameRunning),
        }
    }

    /// The game with new signups in place of a game that is over.
    pub open spec fn reopened(self) -> GameModel {
        if self.phase is Complete {
            GameModel { phase: PhaseModel::initial(), ..self }
        } else {
            self
        }
    }

    /// Whether `who` can enroll: the signups are open, or open again, and do
    /// not hold him.
    pub open spec fn sign_up_error(self, who: u64) -> Option<SignupError> {
        match self.reopened().phase {
            PhaseModel::Signups { enrolled } => if enrolled.contains(who) {
                Some(SignupError::AlreadySignedUp)
            } else {
                None
            },
            _ => Some(SignupError::GameRunning),
        }
    }

    /// The game after `who` has tried to enroll: signups are open again
    /// after a game that is over, and who can enroll is the last of the
    /// enrolled.
    pub open spec fn sign_up(self, who: u64) -> GameModel {
        match self.reopened().phase {
            PhaseModel::Signups { enrolled } => if enrolled.contains(who) {
                self.reopened()
            } else {
                GameModel {
                    phase: PhaseModel::Signups { enrolled: enrolled.push(who) },
                    ..self.reopened()
                }
            },
            _ => self,
        }
    }

    /// Whether `who` can withdraw: the signups are open and hold him.
    pub open spec fn sign_out_error(self, who: u64) -> Option<SignupError> {
        match self.reopened().phase {
            PhaseModel::Signups { enrolled } => if enrolled.contains(who) {
                None
            } else {
                Some(SignupError::NotSignedUp)
            },
            _ => Some(SignupError::GameRunning),
        }
    }

    /// The game after `who` has tried to withdraw: signups are open again
    /// after a game that is over, and who was enrolled is so no more.
    pub open spec fn sign_out(self, who: u64) -> GameModel {
        match self.reopened().phase {
            PhaseModel::Signups { enrolled } => GameModel {
                phase: PhaseModel::Signups { enrolled: crate::lists::except(enrolled, who) },
                ..self.reopened()
            },
            _ => self,
        }
    }
}

/// How an evaluation of the phase ends.
pub enum Wait {
    /// The game waits for its players; no timer is needed.
    Stable,
    /// The phase is to be looked at again after so many seconds.
    Timer(u64),
    /// The rules have to answer first.
    Ask(Next),
}

impl View for Wait {
    type V = Pending;

    open spec fn view(&self) -> Pending {
        match *self {
            Wait::Stable => Pending::Stable,
            Wait::Timer(secs) => Pending::Timer(secs),
            Wait::Ask(next) => Pending::Ask(next@),
        }
    }
}

/// One game of one group.
#[derive(Debug)]
pub struct GameState {
    guild: u64,
    state: Phase,
    alive: Option<Vec<u64>>,
    night_actions: Vec<NightAction>,
    timeouts: Vec<bool>,
    votes: HashMap<u64, Vote>,
}

impl View for GameState {
    type V = GameModel;

    closed spec fn view(&self) -> GameModel {
        GameModel {
            guild: self.guild,
            phase: self.state@,
            alive: match self.alive {
                Some(list) => Some(list@),
                None => None,
            },
            night_actions: self.night_actions@,
            timeouts: self.timeouts@,
            votes: self.votes@,
        }
    }
}

/// Adds one effect to what is to be sent.
fn emit(out: &mut Vec<Effect>, effect: Effect)
    ensures
        effect_views(final(out)@) == effect_views(old(out)@).push(effect@),
{
    out.push(effect);
    assert(effect_views(final(out)@) =~= effect_views(old(out)@).push(effect@));
}

/// What is to be done about players who have died, once their names are
/// at hand: in the order of their names, and by discriminator under one
/// name, each loses the game's role, and then one announcement names them
/// all in that order. `names` holds the names of the dead; who is missing
/// from it is listed under the empty name.
pub fn announce_dead(dead: &Vec<u64>, revealed: &Vec<(u64, Role)>, names: &Vec<PlayerName>) -> (out:
    Vec<Effect>)
    ensures
        effect_views(out@) == death_announcement(dead@, revealed@, names@),
{
    let mut out: Vec<Effect> = Vec::new();
    assert(effect_views(out@) =~= Seq::<EffectModel>::empty());
    if dead.len() == 0 {
        return out;
    }
    let order = order_by_name(dead, names);
    let mut i: usize = 0;
    while i < order.len()
        invariant
            i <= order.len(),
            effect_views(out@) == removals(order@.take(i as int)),
        decreases order.len() - i,
    {
        emit(&mut out, Effect::RemoveRole(order[i]));
        i += 1;
        assert(effect_views(out@) =~= removals(order@.take(i as int)));
    }
    assert(order@.take(i as int) =~= order@);
    emit(&mut out, Effect::Announce(death_notice(&order, revealed)));
    out
}

/// What is announced when the game is over, once the names of the winners
/// are at hand: the winners in the order of their names, and by
/// discriminator under one name. Who is missing from `names` is listed
/// under the empty name.
pub fn announce_winners(winners: &Vec<u64>, names: &Vec<PlayerName>) -> (out: Vec<Effect>)
    ensures
        effect_views(out@) == winners_announcement(winners@, names@),
{
    let mut out: Vec<Effect> = Vec::new();
    assert(effect_views(out@) =~= Seq::<EffectModel>::empty());
    let order = order_by_name(winners, names);
    emit(&mut out, Effect::Announce(game_over(&order)));
    assert(effect_views(out@) =~= winners_announcement(winners@, names@));
    out
}

/// Adds what the start of a day sends.
fn start_day(table: &Vec<TableRow>, alive: usize, out: &mut Vec<Effect>)
    ensures
        effect_views(final(out)@) == effect_views(old(out)@) + day_effects(table@, alive as nat),
{
    emit(out, Effect::Announce(probability_table(table)));
    emit(out, Effect::OpenDiscussion);
    emit(out, Effect::Announce(day_breaks(alive)));
    assert(effect_views(final(out)@) =~= effect_views(old(out)@) + day_effects(
        table@,
        alive as nat,
    ));
}

/// Adds what the start of a night sends.
fn start_night(out: &mut Vec<Effect>)
    ensures
        effect_views(final(out)@) == effect_views(old(out)@) + seq![
            EffectModel::Announce(night_text()),
        ],
{
    emit(out, Effect::Announce(night_falls()));
    assert(effect_views(final(out)@) =~= effect_views(old(out)@) + seq![
        EffectModel::Announce(night_text()),
    ]);
}

/// The roles with which a game of `players` players starts.
pub fn role_distribution(players: usize, healer: bool) -> (roles: Vec<Role>)
    ensures
        roles@ == distribution(players as nat, healer),
{
    let num_ww: usize = (players as u128 * 2 / 5) as usize;
    let mut roles: Vec<Role> = Vec::new();
    let mut i: usize = 0;
    while i < num_ww
        invariant
            i <= num_ww,
            roles@ == Seq::new(i as nat, |k: int| Role::Werewolf(k as usize)),
        decreases num_ww - i,
    {
        roles.push(Role::Werewolf(i));
        i += 1;
        assert(roles@ =~= Seq::new(i as nat, |k: int| Role::Werewolf(k as usize)));
    }
    roles.push(Role::Detective);
    if players > 4 && healer {
        roles.push(Role::Healer);
    }
    roles
}

impl GameState {
    /// A new game for the group: signups with nobody enrolled.
    pub fn new(guild: u64) -> (game: GameState)
        ensures
            game@ == GameModel::initial(guild),
            game@.wf(),
    {
        GameState {
            guild,
            state: Phase::initial(),
            alive: None,
            night_actions: Vec::new(),
            timeouts: Vec::new(),
            votes: HashMap::new(),
        }
    }

    /// The group that the game belongs to.
    pub fn guild(&self) -> (guild: u64)
        ensures
            guild == self@.guild,
    {
        self.guild
    }

    /// The stage that the game is in.
    pub fn phase(&self) -> (phase: &Phase)
        ensures
            phase@ == self@.phase,
    {
        &self.state
    }

    /// The night actions that were submitted this night, in order.
    pub fn night_actions(&self) -> (actions: &Vec<NightAction>)
        ensures
            actions@ == self@.night_actions,
    {
        &self.night_actions
    }

    /// The ballot of each voter.
    pub fn votes(&self) -> (votes: &HashMap<u64, Vote>)
        ensures
            votes@ == self@.votes,
    {
        &self.votes
    }

    /// One flag for each timer that was issued: `true` while it is pending.
    pub fn timeouts(&self) -> (flags: &Vec<bool>)
        ensures
            flags@ == self@.timeouts,
    {
        &self.timeouts
    }

    /// Announces who has died since the last announcement and remembers who
    /// is alive now.
    fn announce_deaths(&mut self, now_alive: Option<Vec<u64>>, out: &mut Vec<Effect>)
        ensures
            final(self)@ == old(self)@.announce_deaths(
                match now_alive {
                    Some(list) => Some(list@),
                    None => None,
                },
            ),
            effect_views(final(out)@) == effect_views(old(out)@) + old(self)@.death_effects(
                match now_alive {
                    Some(list) => Some(list@),
                    None => None,
                },
            ),
    {
        let ghost sent = effect_views(out@);
        if let Some(now) = &now_alive {
            if let Some(before) = &self.alive {
                let gone = difference(before, now);
                let dead = sort(&gone);
                if dead.len() > 0 {
                    let revealed = match &self.state {
                        Phase::Night { roster } => copy_vec(&roster.revealed),
                        Phase::Day { roster } => copy_vec(&roster.revealed),
                        _ => Vec::new(),
                    };
                    emit(out, Effect::Deaths { dead, revealed });
                }
            }
        }
        self.alive = now_alive;
        assert(effect_views(out@) =~= sent + old(self)@.death_effects(
            match now_alive {
                Some(list) => Some(list@),
                None => None,
            },
        ));
    }

    /// Cancels every timer.
    fn cancel_all_timeouts(&mut self)
        ensures
            final(self)@ == old(self)@.cancel_all_timeouts(),
    {
        let n = self.timeouts.len();
        let mut flags: Vec<bool> = Vec::new();
        let mut i: usize = 0;
        while i < n
            invariant
                i <= n,
                flags@ == Seq::new(i as nat, |k: int| false),
            decreases n - i,
        {
            flags.push(false);
            i += 1;
            assert(flags@ =~= Seq::new(i as nat, |k: int| false));
        }
        self.timeouts = flags;
    }

    /// Cancels timer `index`.
    fn cancel_timeout(&mut self, index: usize)
        requires
            index < old(self)@.timeouts.len(),
        ensures
            final(self)@ == old(self)@.cancel_timeout(index as int),
    {
        self.timeouts.set(index, false);
    }

    /// Issues a timer and hands back its index.
    fn start_timeout(&mut self) -> (index: usize)
        ensures
            final(self)@ == old(self)@.start_timeout(),
            index == old(self)@.timeouts.len(),
    {
        let index = self.timeouts.len();
        self.timeouts.push(true);
        index
    }

    /// Whether timer `index` is not pending: it was cancelled, has fired, or
    /// was never issued.
    pub fn timeout_cancelled(&self, index: usize) -> (cancelled: bool)
        ensures
            cancelled == self@.timeout_cancelled(index as int),
    {
        !(index < self.timeouts.len() && self.timeouts[index])
    }

    /// Whether some timer is pending.
    pub fn timeouts_active(&self) -> (active: bool)
        ensures
            active == self@.timeouts_active(),
    {
        let mut i: usize = 0;
        while i < self.timeouts.len()
            invariant
                i <= self.timeouts.len(),
                forall|k: int| 0 <= k < i ==> !self.timeouts@[k],
            decreases self.timeouts.len() - i,
        {
            if self.timeouts[i] {
                return true;
            }
            i += 1;
        }
        false
    }

    /// Looks at the phase: announces who has died and says how the game
    /// goes on from here.
    fn handle_game_state(&mut self, complete: bool, out: &mut Vec<Effect>) -> (wait: Wait)
        requires
            old(self)@.wf(),
        ensures
            final(self)@ == old(self)@.survey(complete).game,
            effect_views(final(out)@) == effect_views(old(out)@) + old(self)@.survey(
                complete,
            ).effects,
            wait@ == old(self)@.survey(complete).pending,
    {
        let ghost sent = effect_views(out@);
        let ghost start = self@;
        let now_alive = self.state.alive();
        let active = self.timeouts_active();
        self.announce_deaths(now_alive, out);
        assert(self@ == start.announce_deaths(start.phase.alive()));
        match &self.state {
            Phase::Signups { enrolled } => {
                if enrolled.len() < MIN_PLAYERS {
                    Wait::Stable
                } else {
                    if !active {
                        emit(out, Effect::Announce(starting_soon()));
                    }
                    assert(effect_views(out@) =~= sent + start.survey(complete).effects);
                    Wait::Timer(SIGNUP_SECS)
                }
            },
            Phase::Night { .. } => {
                if complete {
                    Wait::Ask(Next::ResolveNight { actions: copy_vec(&self.night_actions) })
                } else {
                    Wait::Timer(NIGHT_SECS)
                }
            },
            Phase::Day { roster } => {
                let (max_votes, vote_result) = tally(&self.votes);
                proof {
                    lemma_listed_leaders(self.votes@, vote_result@);
                }
                if max_votes > roster.alive.len() / 2 && vote_result.len() == 1 {
                    Wait::Ask(Next::ResolveDay { resolution: resolution(&vote_result) })
                } else {
                    Wait::Timer(DAY_SECS)
                }
            },
            Phase::Complete { winners } => {
                let sorted = sort(winners);
                emit(out, Effect::Winners(sorted));
                emit(out, Effect::UnlockChannel);
                emit(out, Effect::ReleaseAll);
                self.state = Phase::initial();
                assert(effect_views(out@) =~= sent + start.survey(complete).effects);
                Wait::Stable
            },
        }
    }

    /// Ends a step: issues a timer where one is needed and none is pending.
    fn settle(&mut self, wait: Wait, effects: Vec<Effect>) -> (out: Directive)
        ensures
            walk(final(self)@, out@) == GameModel::settle(
                survey_of(old(self)@, effect_views(effects@), wait@),
            ),
    {
        match wait {
            Wait::Stable => Directive { effects, next: Next::Idle },
            Wait::Timer(secs) => {
                if self.timeouts_active() {
                    Directive { effects, next: Next::Idle }
                } else {
                    let index = self.start_timeout();
                    Directive { effects, next: Next::Sleep { index, secs } }
                }
            },
            Wait::Ask(next) => Directive { effects, next },
        }
    }

    /// What a time limit means for the phase.
    fn handle_timeout(&mut self, healer: bool, out: &mut Vec<Effect>) -> (wait: Wait)
        requires
            old(self)@.wf(),
        ensures
            final(self)@ == old(self)@.expire(healer).game,
            effect_views(final(out)@) == effect_views(old(out)@) + old(self)@.expire(
                healer,
            ).effects,
            wait@ == old(self)@.expire(healer).pending,
    {
        let ghost sent = effect_views(out@);
        let ghost start = self@;
        match &self.state {
            Phase::Signups { enrolled } => {
                if enrolled.len() < MIN_PLAYERS {
                    self.handle_game_state(false, out)
                } else {
                    let roles = role_distribution(enrolled.len(), healer);
                    emit(out, Effect::LockChannel);
                    assert(effect_views(out@) =~= sent + start.expire(healer).effects);
                    Wait::Ask(Next::Start { roles })
                }
            },
            Phase::Night { .. } => {
                assert(effect_views(out@) =~= sent + start.expire(healer).effects);
                Wait::Ask(Next::ResolveNight { actions: copy_vec(&self.night_actions) })
            },
            Phase::Day { .. } => {
                let (_, vote_result) = tally(&self.votes);
                proof {
                    lemma_listed_leaders(self.votes@, vote_result@);
                }
                assert(effect_views(out@) =~= sent + start.expire(healer).effects);
                Wait::Ask(Next::ResolveDay { resolution: resolution(&vote_result) })
            },
            Phase::Complete { .. } => self.handle_game_state(false, out),
        }
    }
}

/// The highest number of ballots that one choice has in the game, and the
/// choices that have that many.
pub fn vote_leads(state: &GameState) -> (result: (usize, Vec<Vote>))
    ensures
        result.0 == crate::werewolf::vote::top(state@.votes),
        result.1@.to_set() == crate::werewolf::vote::leaders(state@.votes),
        result.1@.no_duplicates(),
{
    tally(&state.votes)
}

/// The step after something has changed in the game: an enrollment, a night
/// action, a ballot. `complete` says whether the rules take the night as
/// complete with the actions that are held; it is read at night only.
pub fn continue_game(state: &mut GameState, complete: bool) -> (out: Directive)
    requires
        old(state)@.wf(),
    ensures
        walk(final(state)@, out@) == old(state)@.continue_game(complete),
        final(state)@.wf(),
{
    let mut effects: Vec<Effect> = Vec::new();
    assert(effect_views(effects@) =~= Seq::<EffectModel>::empty());
    let wait = state.handle_game_state(complete, &mut effects);
    assert(effect_views(effects@) =~= old(state)@.survey(complete).effects);
    proof {
        lemma_continue_game(old(state)@, complete);
    }
    state.settle(wait, effects)
}

/// The step when timer `index` fires, with the coin that decides whether
/// the game gets a healer. A timer that is not pending does nothing.
pub fn timeout_fired_with(state: &mut GameState, index: usize, healer: bool) -> (out: Directive)
    requires
        old(state)@.wf(),
    ensures
        walk(final(state)@, out@) == old(state)@.timeout_fired(index as int, healer),
        final(state)@.wf(),
{
    let mut effects: Vec<Effect> = Vec::new();
    assert(effect_views(effects@) =~= Seq::<EffectModel>::empty());
    proof {
        lemma_timeout_fired(old(state)@, index as int, healer);
    }
    if state.timeout_cancelled(index) {
        return Directive { effects, next: Next::Idle };
    }
    state.cancel_timeout(index);
    let ghost used = state@;
    let wait = state.handle_timeout(healer, &mut effects);
    assert(effect_views(effects@) =~= used.expire(healer).effects);
    state.settle(wait, effects)
}

/// Asks the thread's generator of the `rand` crate for a random `bool`.
/// Nothing is known of what it returns.
#[verifier::external_body]
fn coin() -> bool {
    rand::Rng::gen::<bool>(&mut rand::thread_rng())
}

/// The step when timer `index` fires. A timer that is not pending does
/// nothing. Where signups close, a coin decides whether the game gets a
/// healer: the step is that of `timeout_fired_with` for one of the two
/// outcomes.
pub fn timeout_fired(state: &mut GameState, index: usize) -> (out: Directive)
    requires
        old(state)@.wf(),
    ensures
        walk(final(state)@, out@) == old(state)@.timeout_fired(index as int, true) || walk(
            final(state)@,
            out@,
        ) == old(state)@.timeout_fired(index as int, false),
        final(state)@.wf(),
{
    let healer = coin();
    timeout_fired_with(state, index, healer)
}

fn rejected() -> (out: Directive)
    ensures
        out@.effects == Seq::<EffectModel>::empty(),
        out@.next == NextModel::Rejected,
{
    let effects: Vec<Effect> = Vec::new();
    assert(effect_views(effects@) =~= Seq::<EffectModel>::empty());
    Directive { effects, next: Next::Rejected }
}

fn push_role_notes(players: &Vec<u64>, roles: &Vec<Role>, out: &mut Vec<Effect>)
    requires
        roles@.len() <= players@.len(),
    ensures
        effect_views(final(out)@) == effect_views(old(out)@) + role_notes(
            players@,
            roles@,
            players@.len() as int,
        ),
{
    let ghost sent = effect_views(out@);
    let n = players.len();
    let mut i: usize = 0;
    assert(effect_views(out@) =~= sent + role_notes(players@, roles@, 0));
    while i < n
        invariant
            i <= n,
            n == players@.len(),
            roles@.len() <= n,
            effect_views(out@) == sent + role_notes(players@, roles@, i as int),
        decreases n - i,
    {
        emit(out, Effect::Notify(players[i], quantum_role_dm(roles, n, i)));
        i += 1;
        assert(effect_views(out@) =~= sent + role_notes(players@, roles@, i as int));
    }
}

fn push_findings(found: &Vec<Investigation>, out: &mut Vec<Effect>)
    ensures
        effect_views(final(out)@) == effect_views(old(out)@) + findings(found@),
{
    let ghost sent = effect_views(out@);
    let mut i: usize = 0;
    while i < found.len()
        invariant
            i <= found.len(),
            effect_views(out@) == sent + findings(found@.take(i as int)),
        decreases found.len() - i,
    {
        let one = found[i];
        emit(
            out,
            Effect::Investigation { player: one.player, target: one.target, faction: one.faction },
        );
        i += 1;
        assert(effect_views(out@) =~= sent + findings(found@.take(i as int)));
    }
    assert(found@.take(i as int) =~= found@);
}

/// The step when the rules have started the game with `roles`: each player
/// is told his role in private, the first phase is opened and looked at. An
/// outcome that cannot be the start of this game is rejected.
pub fn game_started(state: &mut GameState, roles: &Vec<Role>, outcome: Outcome) -> (out: Directive)
    requires
        old(state)@.wf(),
    ensures
        walk(final(state)@, out@) == old(state)@.game_started(roles@, outcome@),
        final(state)@.wf(),
{
    proof {
        lemma_game_started(old(state)@, roles@, outcome@);
    }
    let enough = match &state.state {
        Phase::Signups { enrolled } => enrolled.len() >= MIN_PLAYERS,
        _ => false,
    };
    if !enough || !state.state.starts_as(&outcome.phase) {
        return rejected();
    }
    let mut effects: Vec<Effect> = Vec::new();
    assert(effect_views(effects@) =~= Seq::<EffectModel>::empty());
    proof {
        lemma_same_members_len(outcome@.phase.secret_ids()->0, state@.phase->enrolled);
    }
    match &outcome.phase {
        Phase::Night { roster } => {
            if roles.len() > roster.secret_ids.len() {
                return rejected();
            }
            push_role_notes(&roster.secret_ids, roles, &mut effects);
            start_night(&mut effects);
        },
        Phase::Day { roster } => {
            if roles.len() > roster.secret_ids.len() {
                return rejected();
            }
            push_role_notes(&roster.secret_ids, roles, &mut effects);
            start_day(&outcome.table, roster.alive.len(), &mut effects);
        },
        _ => {
            return rejected();
        },
    }
    assert(effect_views(effects@) =~= GameModel::start_effects(roles@, outcome@));
    let ghost sent = effect_views(effects@);
    state.state = outcome.phase;
    let ghost opened = state@;
    let wait = state.handle_game_state(outcome.complete, &mut effects);
    let out = state.settle(wait, effects);
    assert(out@.effects =~= sent + opened.continue_game(outcome.complete).out.effects);
    out
}

/// The step when the rules have resolved the night: what was found is
/// passed on, a following day is opened, and the new phase is looked at. An
/// outcome that cannot follow this game's night is rejected.
pub fn night_resolved(state: &mut GameState, outcome: Outcome) -> (out: Directive)
    requires
        old(state)@.wf(),
    ensures
        walk(final(state)@, out@) == old(state)@.night_resolved(outcome@),
        final(state)@.wf(),
{
    proof {
        lemma_night_resolved(old(state)@, outcome@);
    }
    let night = match &state.state {
        Phase::Night { .. } => true,
        _ => false,
    };
    if !night || !state.state.resolves_to(&outcome.phase) {
        return rejected();
    }
    let mut effects: Vec<Effect> = Vec::new();
    assert(effect_views(effects@) =~= Seq::<EffectModel>::empty());
    state.cancel_all_timeouts();
    state.night_actions = Vec::new();
    if let Phase::Day { roster } = &outcome.phase {
        push_findings(&outcome.investigations, &mut effects);
        start_day(&outcome.table, roster.alive.len(), &mut effects);
    }
    assert(effect_views(effects@) =~= GameModel::night_effects(outcome@));
    let ghost sent = effect_views(effects@);
    state.state = outcome.phase;
    let ghost resolved = state@;
    assert(resolved == old(state)@.resolve_night(outcome@));
    assert(resolved.wf()) by {
        let flags = resolved.timeouts;
        if flags.contains(true) {
            let i = choose|i: int| 0 <= i < flags.len() && flags[i] == true;
        }
    }
    let wait = state.handle_game_state(outcome.complete, &mut effects);
    let out = state.settle(wait, effects);
    assert(out@.effects =~= sent + resolved.continue_game(outcome.complete).out.effects);
    out
}

/// The step when the rules have resolved the day: the discussion closes,
/// the dead are announced, a following night is opened, and the new phase
/// is looked at. An outcome that cannot follow this game's day is rejected.
pub fn day_resolved(state: &mut GameState, outcome: Outcome) -> (out: Directive)
    requires
        old(state)@.wf(),
    ensures
        walk(final(state)@, out@) == old(state)@.day_resolved(outcome@),
        final(state)@.wf(),
{
    proof {
        lemma_day_resolved(old(state)@, outcome@);
    }
    let day = match &state.state {
        Phase::Day { .. } => true,
        _ => false,
    };
    if !day || !state.state.resolves_to(&outcome.phase) {
        return rejected();
    }
    let mut effects: Vec<Effect> = Vec::new();
    assert(effect_views(effects@) =~= Seq::<EffectModel>::empty());
    state.cancel_all_timeouts();
    emit(&mut effects, Effect::CloseDiscussion);
    emit(&mut effects, Effect::Announce(discussion_closed()));
    state.votes = HashMap::new();
    let night = match &outcome.phase {
        Phase::Night { .. } => true,
        _ => false,
    };
    state.state = outcome.phase;
    assert(state@ == old(state)@.day_closed(outcome@));
    let now_alive = state.state.alive();
    state.announce_deaths(now_alive, &mut effects);
    if night {
        start_night(&mut effects);
    }
    assert(effect_views(effects@) =~= old(state)@.day_end_effects(outcome@));
    let ghost sent = effect_views(effects@);
    let ghost resolved = state@;
    assert(resolved == old(state)@.resolve_day(outcome@));
    assert(resolved.wf()) by {
        let flags = resolved.timeouts;
        if flags.contains(true) {
            let i = choose|i: int| 0 <= i < flags.len() && flags[i] == true;
        }
    }
    let wait = state.handle_game_state(outcome.complete, &mut effects);
    let out = state.settle(wait, effects);
    assert(out@.effects =~= sent + resolved.continue_game(outcome.complete).out.effects);
    out
}

impl GameState {
    /// Takes what a participant submits, or says why it is not taken.
    pub fn accept(&mut self, action: Action) -> (result: Result<(), ActionError>)
        requires
            old(self)@.wf(),
        ensures
            match old(self)@.accept(action) {
                Ok(game) => result is Ok && final(self)@ == game,
                Err(error) => result == Err::<(), ActionError>(error) && final(self)@ == old(
                    self,
                )@,
            },
            final(self)@.wf(),
    {
        proof {
            if old(self)@.accept(action) is Ok {
                lemma_accept(old(self)@, action);
            }
        }
        match &self.state {
            Phase::Night { roster } => match action {
                Action::Night(night_action) => {
                    if !crate::lists::contains(&roster.secret_ids, night_action.src()) {
                        return Err(ActionError::NotPlaying);
                    }
                    self.night_actions.push(night_action);
                    Ok(())
                },
                Action::Vote(_, _) | Action::Unvote(_) => Err(ActionError::NoVoteOpen),
            },
            Phase::Day { roster } => match action {
                Action::Vote(src, vote) => {
                    if !crate::lists::contains(&roster.alive, src) {
                        return Err(ActionError::DeadCannotVote);
                    }
                    self.votes.insert(src, vote);
                    Ok(())
                },
                Action::Unvote(src) => {
                    if !crate::lists::contains(&roster.alive, src) {
                        return Err(ActionError::DeadCannotVote);
                    }
                    self.votes.remove(&src);
                    Ok(())
                },
                Action::Night(_) => Err(ActionError::ItIsDay),
            },
            Phase::Signups { .. } | Phase::Complete { .. } => Err(ActionError::NoGameRunning),
        }
    }

    /// Opens new signups in place of a game that is over.
    fn reopen(&mut self)
        ensures
            final(self)@ == old(self)@.reopened(),
    {
        let over = match &self.state {
            Phase::Complete { .. } => true,
            _ => false,
        };
        if over {
            self.state = Phase::initial();
        }
    }

    /// Enrolls `who`, or says why not. Signups are open again after a game
    /// that is over.
    pub fn sign_up(&mut self, who: u64) -> (result: Result<(), SignupError>)
        requires
            old(self)@.wf(),
        ensures
            final(self)@ == old(self)@.sign_up(who),
            match old(self)@.sign_up_error(who) {
                Some(error) => result == Err::<(), SignupError>(error),
                None => result is Ok,
            },
            final(self)@.wf(),
    {
        proof {
            lemma_sign_up(old(self)@, who);
        }
        self.reopen();
        match &mut self.state {
            Phase::Signups { enrolled } => {
                if crate::lists::contains(enrolled, who) {
                    Err(SignupError::AlreadySignedUp)
                } else {
                    enrolled.push(who);
                    Ok(())
                }
            },
            _ => Err(SignupError::GameRunning),
        }
    }

    /// Withdraws the enrollment of `who`, or says why not. Signups are open
    /// again after a game that is over.
    pub fn sign_out(&mut self, who: u64) -> (result: Result<(), SignupError>)
        requires
            old(self)@.wf(),
        ensures
            final(self)@ == old(self)@.sign_out(who),
            match old(self)@.sign_out_error(who) {
                Some(error) => result == Err::<(), SignupError>(error),
                None => result is Ok,
            },
            final(self)@.wf(),
    {
        proof {
            lemma_sign_out(old(self)@, who);
        }
        self.reopen();
        let remaining = match &self.state {
            Phase::Signups { enrolled } => {
                if !crate::lists::contains(enrolled, who) {
                    proof {
                        crate::lists::lemma_except(enrolled@, who);
                    }
                    return Err(SignupError::NotSignedUp);
                }
                crate::lists::remove_all(enrolled, who)
            },
            _ => {
                return Err(SignupError::GameRunning);
            },
        };
        self.state = Phase::Signups { enrolled: remaining };
        Ok(())
    }
}

/// What happens to a game from outside.
#[derive(Debug, Clone)]
pub enum Event {
    /// Something was submitted. `complete` says whether the rules take the
    /// night as complete with the actions that are held now.
    Changed { complete: bool },
    /// Timer `index` has run out.
    TimerFired { index: usize },
    /// The rules have started the game with these roles.
    Started { roles: Vec<Role>, outcome: Outcome },
    /// The rules have resolved the night.
    NightResolved { outcome: Outcome },
    /// The rules have resolved the day.
    DayResolved { outcome: Outcome },
    /// Timer `index` was issued but is not running: what was to be sent
    /// before it could not be sent.
    TimerDropped { index: usize },
}

/// What happens to a game from outside, as a mathematical value.
pub enum EventModel {
    Changed { complete: bool },
    TimerFired { index: usize },
    Started { roles: Seq<Role>, outcome: OutcomeModel },
    NightResolved { outcome: OutcomeModel },
    DayResolved { outcome: OutcomeModel },
    TimerDropped { index: usize },
}

impl View for Event {
    type V = EventModel;

    open spec fn view(&self) -> EventModel {
        match *self {
            Event::Changed { complete } => EventModel::Changed { complete },
            Event::TimerFired { index } => EventModel::TimerFired { index },
            Event::Started { roles, outcome } => EventModel::Started {
                roles: roles@,
                outcome: outcome@,
            },
            Event::NightResolved { outcome } => EventModel::NightResolved { outcome: outcome@ },
            Event::DayResolved { outcome } => EventModel::DayResolved { outcome: outcome@ },
            Event::TimerDropped { index } => EventModel::TimerDropped { index },
        }
    }
}

impl GameModel {
    /// The step that the event stands for. `healer` is the coin that a
    /// timer reads where signups close.
    pub open spec fn step(self, event: EventModel, healer: bool) -> Walk {
        match event {
            EventModel::Changed { complete } => self.continue_game(complete),
            EventModel::TimerFired { index } => self.timeout_fired(index as int, healer),
            EventModel::Started { roles, outcome } => self.game_started(roles, outcome),
            EventModel::NightResolved { outcome } => self.night_resolved(outcome),
            EventModel::DayResolved { outcome } => self.day_resolved(outcome),
            EventModel::TimerDropped { index } => Walk {
                game: self.timer_dropped(index as int),
                out: DirectiveModel { effects: Seq::empty(), next: NextModel::Idle },
            },
        }
    }
}

/// Takes the game one step: from the event to what is to be sent and what
/// is needed next. The coin that a timer reads where signups close is
/// drawn here, so the step is the one for one of its two outcomes.
pub fn step(state: &mut GameState, event: Event) -> (out: Directive)
    requires
        old(state)@.wf(),
    ensures
        walk(final(state)@, out@) == old(state)@.step(event@, true) || walk(final(state)@, out@)
            == old(state)@.step(event@, false),
        final(state)@.wf(),
{
    match event {
        Event::Changed { complete } => continue_game(state, complete),
        Event::TimerFired { index } => timeout_fired(state, index),
        Event::Started { roles, outcome } => game_started(state, &roles, outcome),
        Event::NightResolved { outcome } => night_resolved(state, outcome),
        Event::DayResolved { outcome } => day_resolved(state, outcome),
        Event::TimerDropped { index } => {
            timer_dropped(state, index);
            let effects: Vec<Effect> = Vec::new();
            assert(effect_views(effects@) =~= Seq::<EffectModel>::empty());
            Directive { effects, next: Next::Idle }
        },
    }
}

/// Gives timer `index` up: it was issued by a step, but what the step
/// wanted sent could not be sent, and nobody sleeps for it. The timer is
/// cancelled, so that a later step can issue a timer again. An index that
/// was never handed out changes nothing.
pub fn timer_dropped(state: &mut GameState, index: usize)
    requires
        old(state)@.wf(),
    ensures
        final(state)@ == old(state)@.timer_dropped(index as int),
        final(state)@.wf(),
{
    proof {
        lemma_timer_dropped(old(state)@, index as int);
    }
    if index < state.timeouts.len() {
        state.cancel_timeout(index);
    }
}

} // verus!
