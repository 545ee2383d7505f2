//! What holds of every game, whatever is submitted, whenever timers fire
//! and whatever the rules answer.

use crate::lists::{lemma_except, lemma_same_members_len};
use crate::werewolf::game::{
    death_announcement,
    Action,
    EffectModel,
    EventModel,
    GameModel,
    NextModel,
    Survey,
};
use crate::werewolf::messages::deaths_text;
use crate::werewolf::names::{by_name, in_name_order, lemma_by_name, PlayerName};
use crate::werewolf::rules::{OutcomeModel, PhaseModel, Role};
use crate::werewolf::vote::{has_majority, verdict};
use vstd::prelude::*;

verus! {

/// A new game is well formed.
pub proof fn lemma_initial_wf(guild: u64)
    ensures
        GameModel::initial(guild).wf(),
{
}

/// A game holds night actions only at night and ballots only by day. It is
/// in one phase at a time.
pub proof fn lemma_collections_match_phase(game: GameModel)
    requires
        game.wf(),
    ensures
        !(game.phase is Night) ==> game.night_actions.len() == 0,
        !(game.phase is Day) ==> game.votes.len() == 0,
        (game.phase is Signups) != (game.phase is Night || game.phase is Day || game.phase
            is Complete),
        !(game.phase is Night && game.phase is Day),
        !(game.phase is Night && game.phase is Complete),
        !(game.phase is Day && game.phase is Complete),
{
}

/// Cancelling every timer leaves none pending.
pub proof fn lemma_cancel_all(game: GameModel)
    ensures
        !game.cancel_all_timeouts().timeouts_active(),
        game.cancel_all_timeouts().timeouts.len() == game.timeouts.len(),
        forall|index: int| game.cancel_all_timeouts().timeout_cancelled(index),
{
    let flags = game.cancel_all_timeouts().timeouts;
    if flags.contains(true) {
        let i = choose|i: int| 0 <= i < flags.len() && flags[i] == true;
    }
}

/// Looking at the phase keeps the game well formed, holds nobody new to
/// the game, and leaves the group and the timers as they are.
pub proof fn lemma_survey(game: GameModel, complete: bool)
    requires
        game.wf(),
    ensures
        game.survey(complete).game.wf(),
        game.survey(complete).game.phase.participants().subset_of(game.phase.participants()),
        game.survey(complete).game.guild == game.guild,
        game.survey(complete).game.timeouts == game.timeouts,
        game.survey(complete).game.phase == game.phase || (game.phase is Complete && game.survey(
            complete,
        ).game.phase == PhaseModel::initial()),
{
}

/// Ending a step keeps the game well formed where it is not over, and
/// changes nothing but the timers.
pub proof fn lemma_settle(survey: Survey)
    requires
        survey.game.wf(),
        !(survey.game.phase is Complete),
    ensures
        GameModel::settle(survey).game.wf(),
        GameModel::settle(survey).game.phase == survey.game.phase,
        GameModel::settle(survey).game.guild == survey.game.guild,
        GameModel::settle(survey).out.effects == survey.effects,
{
}

/// The step after a change keeps the game well formed, holds nobody new to
/// the game and leaves it out of the phase in which it is over.
pub proof fn lemma_continue_game(game: GameModel, complete: bool)
    requires
        game.wf(),
    ensures
        game.continue_game(complete).game.wf(),
        game.continue_game(complete).game.phase.participants().subset_of(
            game.phase.participants(),
        ),
        game.continue_game(complete).game.guild == game.guild,
        !(game.continue_game(complete).game.phase is Complete),
{
    lemma_survey(game, complete);
    lemma_settle(game.survey(complete));
}

/// A timer that fires keeps the game well formed and holds nobody new to
/// the game.
pub proof fn lemma_timeout_fired(game: GameModel, index: int, healer: bool)
    requires
        game.wf(),
    ensures
        game.timeout_fired(index, healer).game.wf(),
        game.timeout_fired(index, healer).game.phase.participants().subset_of(
            game.phase.participants(),
        ),
        game.timeout_fired(index, healer).game.guild == game.guild,
{
    if !game.timeout_cancelled(index) {
        let used = game.cancel_timeout(index);
        assert(game.timeouts.contains(true));
        assert(used.wf());
        lemma_survey(used, false);
        lemma_settle(used.expire(healer));
    }
}

/// Giving a timer up keeps the game well formed and in its phase, leaves
/// the timer cancelled and the other timers as they are.
pub proof fn lemma_timer_dropped(game: GameModel, index: int)
    requires
        game.wf(),
    ensures
        game.timer_dropped(index).wf(),
        game.timer_dropped(index).phase == game.phase,
        game.timer_dropped(index).guild == game.guild,
        game.timer_dropped(index).timeout_cancelled(index),
        game.timer_dropped(index).timeouts.len() == game.timeouts.len(),
        forall|other: int|
            0 <= other < game.timeouts.len() && other != index ==> game.timer_dropped(
                index,
            ).timeouts[other] == game.timeouts[other],
{
    let dropped = game.timer_dropped(index);
    if dropped.timeouts.contains(true) {
        let i = choose|i: int| 0 <= i < dropped.timeouts.len() && dropped.timeouts[i] == true;
        assert(game.timeouts[i] == true);
    }
}

/// Once the one pending timer is given up, the next look at a phase that
/// waits for its time limit issues a timer again.
pub proof fn lemma_dropped_timer_is_issued_again(game: GameModel, index: int, complete: bool)
    requires
        game.wf(),
        forall|other: int|
            0 <= other < game.timeouts.len() && other != index ==> !game.timeouts[other],
        game.survey(complete).pending is Timer,
    ensures
        game.timer_dropped(index).continue_game(complete).out.next is Sleep,
{
    let dropped = game.timer_dropped(index);
    lemma_timer_dropped(game, index);
    if dropped.timeouts.contains(true) {
        let i = choose|i: int| 0 <= i < dropped.timeouts.len() && dropped.timeouts[i] == true;
    }
    lemma_survey(dropped, complete);
}

/// A timer that is not pending when it fires changes nothing and sends
/// nothing, whatever has happened to the game in the meantime.
pub proof fn lemma_stale_timer_is_inert(game: GameModel, index: int, healer: bool)
    requires
        game.timeout_cancelled(index),
    ensures
        game.timeout_fired(index, healer).game == game,
        game.timeout_fired(index, healer).out.effects.len() == 0,
        game.timeout_fired(index, healer).out.next == NextModel::Idle,
{
}

/// A timer that has fired is used up: when it fires again it is stale.
pub proof fn lemma_timer_fires_once(game: GameModel, index: int, healer: bool)
    requires
        game.wf(),
    ensures
        game.timeout_fired(index, healer).game.timeout_cancelled(index),
{
    if !game.timeout_cancelled(index) {
        let used = game.cancel_timeout(index);
        assert(used.timeouts[index] == false);
        lemma_survey(used, false);
    }
}

/// The start of a game keeps it well formed and holds nobody new to it.
pub proof fn lemma_game_started(game: GameModel, roles: Seq<Role>, outcome: OutcomeModel)
    requires
        game.wf(),
    ensures
        game.game_started(roles, outcome).game.wf(),
        game.game_started(roles, outcome).game.phase.participants().subset_of(
            game.phase.participants(),
        ),
        game.game_started(roles, outcome).game.guild == game.guild,
{
    if game.can_start(roles, outcome) {
        let opened = GameModel { phase: outcome.phase, ..game };
        lemma_same_members_len(outcome.phase.secret_ids()->0, game.phase->enrolled);
        assert(opened.wf());
        lemma_continue_game(opened, outcome.complete);
    }
}

/// Who is held to the game after a night or a day was held to it before.
proof fn lemma_resolves_to(before: PhaseModel, next: PhaseModel)
    requires
        before.resolves_to(next),
    ensures
        next.participants().subset_of(before.participants()),
{
}

/// The end of a night keeps the game well formed, holds nobody new to it,
/// and leaves no timer pending that was issued before.
pub proof fn lemma_night_resolved(game: GameModel, outcome: OutcomeModel)
    requires
        game.wf(),
    ensures
        game.night_resolved(outcome).game.wf(),
        game.night_resolved(outcome).game.phase.participants().subset_of(
            game.phase.participants(),
        ),
        game.night_resolved(outcome).game.guild == game.guild,
        !(game.night_resolved(outcome).out.next is Rejected) ==> forall|index: int|
            0 <= index < game.timeouts.len() ==> game.night_resolved(
                outcome,
            ).game.timeout_cancelled(index),
{
    if game.phase is Night && game.phase.resolves_to(outcome.phase) {
        let resolved = game.resolve_night(outcome);
        lemma_cancel_all(game);
        lemma_resolves_to(game.phase, outcome.phase);
        assert(resolved.wf());
        lemma_survey(resolved, outcome.complete);
        lemma_continue_game(resolved, outcome.complete);
    }
}

/// The end of a day keeps the game well formed, holds nobody new to it, and
/// leaves no timer pending that was issued before.
pub proof fn lemma_day_resolved(game: GameModel, outcome: OutcomeModel)
    requires
        game.wf(),
    ensures
        game.day_resolved(outcome).game.wf(),
        game.day_resolved(outcome).game.phase.participants().subset_of(
            game.phase.participants(),
        ),
        game.day_resolved(outcome).game.guild == game.guild,
        !(game.day_resolved(outcome).out.next is Rejected) ==> forall|index: int|
            0 <= index < game.timeouts.len() ==> game.day_resolved(outcome).game.timeout_cancelled(
                index,
            ),
{
    if game.phase is Day && game.phase.resolves_to(outcome.phase) {
        let resolved = game.resolve_day(outcome);
        lemma_cancel_all(game);
        lemma_resolves_to(game.phase, outcome.phase);
        assert(resolved.wf());
        lemma_survey(resolved, outcome.complete);
        lemma_continue_game(resolved, outcome.complete);
    }
}

/// What a participant submits keeps the game well formed and in its phase.
pub proof fn lemma_accept(game: GameModel, action: Action)
    requires
        game.wf(),
        game.accept(action) is Ok,
    ensures
        game.accept(action)->Ok_0.wf(),
        game.accept(action)->Ok_0.phase == game.phase,
        game.accept(action)->Ok_0.guild == game.guild,
        game.phase.admits(action.source()),
{
}

/// An enrollment keeps the game well formed and holds nobody to it but, at
/// most, who enrolls.
pub proof fn lemma_sign_up(game: GameModel, who: u64)
    requires
        game.wf(),
    ensures
        game.sign_up(who).wf(),
        game.sign_up(who).guild == game.guild,
        game.sign_up(who).phase.participants().subset_of(game.phase.participants().insert(who)),
        game.sign_up_error(who) is None ==> game.sign_up(who).phase.participants().contains(who),
{
    if let PhaseModel::Signups { enrolled } = game.reopened().phase {
        if !enrolled.contains(who) {
            let more = enrolled.push(who);
            assert(more.no_duplicates());
            assert(more[more.len() - 1] == who);
            assert forall|x: u64| more.to_set().contains(x) implies game.phase.participants().insert(
                who,
            ).contains(x) by {
                let i = choose|i: int| 0 <= i < more.len() && more[i] == x;
                if i < enrolled.len() {
                    assert(enrolled[i] == x);
                    assert(enrolled.contains(x));
                }
            }
        }
    }
}

/// A withdrawal keeps the game well formed and holds nobody new to it; who
/// withdraws is held no more.
pub proof fn lemma_sign_out(game: GameModel, who: u64)
    requires
        game.wf(),
    ensures
        game.sign_out(who).wf(),
        game.sign_out(who).guild == game.guild,
        game.sign_out(who).phase.participants().subset_of(game.phase.participants()),
        game.sign_out_error(who) is None ==> !game.sign_out(who).phase.participants().contains(who),
{
    if let PhaseModel::Signups { enrolled } = game.reopened().phase {
        lemma_except(enrolled, who);
    }
}

/// A day that the ballots decide by majority and the same day when its time
/// runs out are resolved in the same way, and with the same answer of the
/// rules they leave the same game.
pub proof fn lemma_majority_and_timeout_agree(
    game: GameModel,
    complete: bool,
    index: int,
    healer: bool,
    outcome: OutcomeModel,
)
    requires
        game.wf(),
        game.phase is Day,
        has_majority(game.votes, game.phase->Day_roster.alive.len()),
        !game.timeout_cancelled(index),
        game.phase.resolves_to(outcome.phase),
    ensures
        game.continue_game(complete).out.next == (NextModel::ResolveDay {
            resolution: verdict(game.votes),
        }),
        game.timeout_fired(index, healer).out.next == game.continue_game(complete).out.next,
        game.timeout_fired(index, healer).game.day_resolved(outcome).game == game.continue_game(
            complete,
        ).game.day_resolved(outcome).game,
        game.timeout_fired(index, healer).game.day_resolved(outcome).out.next
            == game.continue_game(complete).game.day_resolved(outcome).out.next,
{
    let by_vote = game.continue_game(complete).game;
    let by_time = game.timeout_fired(index, healer).game;
    assert(by_vote.cancel_all_timeouts().timeouts =~= by_time.cancel_all_timeouts().timeouts);
    assert(by_vote.resolve_day(outcome) == by_time.resolve_day(outcome));
}

/// Every step keeps the game well formed, in its group, and holds nobody
/// new to the game.
pub proof fn lemma_step(game: GameModel, event: EventModel, healer: bool)
    requires
        game.wf(),
    ensures
        game.step(event, healer).game.wf(),
        game.step(event, healer).game.guild == game.guild,
        game.step(event, healer).game.phase.participants().subset_of(game.phase.participants()),
{
    match event {
        EventModel::Changed { complete } => {
            lemma_continue_game(game, complete);
        },
        EventModel::TimerFired { index } => {
            lemma_timeout_fired(game, index as int, healer);
        },
        EventModel::Started { roles, outcome } => {
            lemma_game_started(game, roles, outcome);
        },
        EventModel::NightResolved { outcome } => {
            lemma_night_resolved(game, outcome);
        },
        EventModel::DayResolved { outcome } => {
            lemma_day_resolved(game, outcome);
        },
        EventModel::TimerDropped { index } => {
            lemma_timer_dropped(game, index as int);
        },
    }
}

/// The timers of `after` are those of `before`, which may have been
/// cancelled, and timers that were issued since: none is gone and none is
/// pending again.
pub open spec fn timers_extend(before: Seq<bool>, after: Seq<bool>) -> bool {
    &&& before.len() <= after.len()
    &&& forall|index: int| 0 <= index < before.len() && after[index] ==> before[index]
}

proof fn lemma_continue_game_timers(game: GameModel, complete: bool)
    requires
        game.wf(),
    ensures
        timers_extend(game.timeouts, game.continue_game(complete).game.timeouts),
{
    lemma_survey(game, complete);
}

/// No step removes a timer or makes a timer pending that was cancelled: an
/// index that was handed out stands for the same timer for good.
pub proof fn lemma_timers_are_append_only(game: GameModel, event: EventModel, healer: bool)
    requires
        game.wf(),
    ensures
        timers_extend(game.timeouts, game.step(event, healer).game.timeouts),
{
    match event {
        EventModel::Changed { complete } => {
            lemma_continue_game_timers(game, complete);
        },
        EventModel::TimerFired { index } => {
            if !game.timeout_cancelled(index as int) {
                let used = game.cancel_timeout(index as int);
                assert(game.timeouts.contains(true));
                lemma_survey(used, false);
            }
        },
        EventModel::Started { roles, outcome } => {
            if game.can_start(roles, outcome) {
                let opened = GameModel { phase: outcome.phase, ..game };
                lemma_same_members_len(outcome.phase.secret_ids()->0, game.phase->enrolled);
                lemma_continue_game_timers(opened, outcome.complete);
            }
        },
        EventModel::NightResolved { outcome } => {
            if game.phase is Night && game.phase.resolves_to(outcome.phase) {
                lemma_cancel_all(game);
                lemma_continue_game_timers(game.resolve_night(outcome), outcome.complete);
            }
        },
        EventModel::DayResolved { outcome } => {
            if game.phase is Day && game.phase.resolves_to(outcome.phase) {
                lemma_cancel_all(game);
                lemma_continue_game_timers(game.resolve_day(outcome), outcome.complete);
            }
        },
        EventModel::TimerDropped { index } => {},
    }
}

/// What is sent about the dead names each of them once: each loses the
/// game's role, in the order of the names, and one announcement, the last
/// thing sent, names them in that order. Nobody is named before somebody
/// whom he is listed after.
pub proof fn lemma_dead_are_named_once_in_name_order(
    dead: Seq<u64>,
    revealed: Seq<(u64, Role)>,
    names: Seq<PlayerName>,
)
    requires
        dead.len() > 0,
    ensures
        death_announcement(dead, revealed, names).len() == dead.len() + 1,
        forall|i: int|
            0 <= i < dead.len() ==> #[trigger] death_announcement(dead, revealed, names)[i]
                == EffectModel::RemoveRole(by_name(names, dead)[i]),
        death_announcement(dead, revealed, names).last() == EffectModel::Announce(
            deaths_text(by_name(names, dead), revealed),
        ),
        by_name(names, dead).to_multiset() == dead.to_multiset(),
        in_name_order(names, by_name(names, dead)),
{
    lemma_by_name(names, dead);
}

} // verus!
