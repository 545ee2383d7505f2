use peter::werewolf::game::{
    continue_game, day_resolved, game_started, night_resolved, role_distribution, step,
    timeout_fired, timeout_fired_with, vote_leads, Action, ActionError, Directive, Effect, Event,
    GameState, Next, SignupError, DAY_SECS, NIGHT_SECS, SIGNUP_SECS,
};
use peter::werewolf::game::{announce_dead, announce_winners, timer_dropped};
use peter::werewolf::messages::{
    day_breaks, discussion_closed, night_falls, probability_table, quantum_role_dm,
    starting_soon,
};
use peter::werewolf::names::PlayerName;
use peter::werewolf::rules::{
    Faction, Investigation, NightAction, Outcome, Phase, Role, Roster, TableRow, MIN_PLAYERS,
};
use peter::werewolf::vote::{Resolution, Vote};

fn enrolled(n: u64) -> GameState {
    let mut game = GameState::new(1);
    for who in 1..=n {
        assert_eq!(game.sign_up(who * 10), Ok(()));
    }
    game
}

fn roster(alive: &[u64]) -> Roster {
    Roster {
        secret_ids: vec![30, 10, 60, 20, 50, 40],
        alive: alive.to_vec(),
        revealed: vec![(60, Role::Detective), (10, Role::Werewolf(0))],
    }
}

fn outcome(phase: Phase) -> Outcome {
    Outcome { phase, table: vec![], investigations: vec![], complete: false }
}

fn night(alive: &[u64]) -> Outcome {
    outcome(Phase::Night { roster: roster(alive) })
}

fn day(alive: &[u64]) -> Outcome {
    Outcome {
        phase: Phase::Day { roster: roster(alive) },
        table: vec![TableRow::Dead(Faction::Village)],
        investigations: vec![Investigation { player: 10, target: 20, faction: Faction::Village }],
        complete: false,
    }
}

/// A game in its first night, with timer 1 pending.
fn in_night() -> GameState {
    let mut game = enrolled(6);
    continue_game(&mut game, false);
    let asked = timeout_fired_with(&mut game, 0, false);
    let roles = match asked.next {
        Next::Start { roles } => roles,
        other => panic!("unexpected: {:?}", other),
    };
    let started = game_started(&mut game, &roles, night(&[10, 20, 30, 40, 50, 60]));
    assert_eq!(started.next, Next::Sleep { index: 1, secs: NIGHT_SECS });
    game
}

/// A game in its first day with five players alive, with timer 2 pending.
fn in_day() -> GameState {
    let mut game = in_night();
    let out = night_resolved(&mut game, day(&[10, 20, 30, 40, 50]));
    assert_eq!(out.next, Next::Sleep { index: 2, secs: DAY_SECS });
    game
}

fn idle() -> Directive {
    Directive { effects: vec![], next: Next::Idle }
}

#[test]
fn waiting_times_are_a_minute_three_minutes_and_half_an_hour() {
    assert_eq!(SIGNUP_SECS, 60);
    assert_eq!(NIGHT_SECS, 180);
    assert_eq!(DAY_SECS, 1800);
    assert_eq!(MIN_PLAYERS, 6);
}

#[test]
fn a_new_game_is_in_signups_and_holds_nothing() {
    let game = GameState::new(77);
    assert_eq!(game.guild(), 77);
    assert!(matches!(game.phase(), Phase::Signups { enrolled } if enrolled.is_empty()));
    assert!(game.night_actions().is_empty());
    assert!(game.votes().is_empty());
    assert!(game.timeouts().is_empty());
    assert!(!game.timeouts_active());
}

#[test]
fn five_enrolled_are_too_few_and_no_timer_is_armed() {
    let mut game = enrolled(5);
    assert_eq!(continue_game(&mut game, false), idle());
    assert!(game.timeouts().is_empty());
    assert!(matches!(game.phase(), Phase::Signups { enrolled } if enrolled.len() == 5));
}

#[test]
fn the_sixth_enrollment_announces_the_start_and_arms_a_minute() {
    let mut game = enrolled(6);
    let out = continue_game(&mut game, false);
    assert_eq!(out.effects, vec![Effect::Announce(starting_soon())]);
    assert_eq!(out.next, Next::Sleep { index: 0, secs: 60 });
    assert_eq!(game.timeouts(), &vec![true]);
}

#[test]
fn a_further_enrollment_during_the_minute_arms_no_second_timer() {
    let mut game = enrolled(6);
    continue_game(&mut game, false);
    assert_eq!(game.sign_up(70), Ok(()));
    assert_eq!(continue_game(&mut game, false), idle());
    assert_eq!(game.timeouts(), &vec![true]);
}

#[test]
fn signups_that_time_out_ask_the_rules_to_start() {
    let mut game = enrolled(6);
    continue_game(&mut game, false);
    let out = timeout_fired_with(&mut game, 0, true);
    assert_eq!(out.effects, vec![Effect::LockChannel]);
    assert_eq!(
        out.next,
        Next::Start {
            roles: vec![Role::Werewolf(0), Role::Werewolf(1), Role::Detective, Role::Healer]
        }
    );
    assert_eq!(game.timeouts(), &vec![false]);
    assert!(matches!(game.phase(), Phase::Signups { enrolled } if enrolled.len() == 6));
}

#[test]
fn signups_that_fell_below_the_minimum_do_not_start() {
    let mut game = enrolled(6);
    continue_game(&mut game, false);
    assert_eq!(game.sign_out(10), Ok(()));
    assert_eq!(timeout_fired_with(&mut game, 0, true), idle());
    assert_eq!(game.timeouts(), &vec![false]);
}

#[test]
fn the_start_notifies_each_player_once_and_opens_the_night() {
    let mut game = enrolled(6);
    continue_game(&mut game, false);
    timeout_fired_with(&mut game, 0, false);
    let roles = vec![Role::Werewolf(0), Role::Werewolf(1), Role::Detective];
    let out = game_started(&mut game, &roles, night(&[10, 20, 30, 40, 50, 60]));
    let mut expected = Vec::new();
    for (rank, player) in [30u64, 10, 60, 20, 50, 40].into_iter().enumerate() {
        expected.push(Effect::Notify(player, quantum_role_dm(&roles, 6, rank)));
    }
    expected.push(Effect::Announce(night_falls()));
    assert_eq!(out.effects, expected);
    assert_eq!(out.next, Next::Sleep { index: 1, secs: 180 });
    assert!(matches!(game.phase(), Phase::Night { .. }));
    assert_eq!(game.timeouts(), &vec![false, true]);
}

#[test]
fn the_start_can_open_a_day() {
    let mut game = enrolled(6);
    continue_game(&mut game, false);
    timeout_fired_with(&mut game, 0, false);
    let roles = vec![Role::Detective];
    let first_day = day(&[10, 20, 30, 40, 50, 60]);
    let table = first_day.table.clone();
    let out = game_started(&mut game, &roles, first_day);
    assert_eq!(out.effects.len(), 9);
    assert_eq!(
        out.effects[6..],
        [
            Effect::Announce(probability_table(&table)),
            Effect::OpenDiscussion,
            Effect::Announce(day_breaks(6)),
        ]
    );
    assert_eq!(out.next, Next::Sleep { index: 1, secs: 1800 });
}

#[test]
fn a_start_with_other_players_is_rejected() {
    let mut game = enrolled(6);
    continue_game(&mut game, false);
    timeout_fired_with(&mut game, 0, false);
    let strangers = Roster {
        secret_ids: vec![1, 2, 3, 4, 5, 6],
        alive: vec![1, 2, 3, 4, 5, 6],
        revealed: vec![],
    };
    let out = game_started(&mut game, &vec![], outcome(Phase::Night { roster: strangers }));
    assert_eq!(out, Directive { effects: vec![], next: Next::Rejected });
    assert!(matches!(game.phase(), Phase::Signups { .. }));
}

#[test]
fn a_start_is_rejected_without_enough_players_or_with_too_many_roles() {
    let mut few = enrolled(5);
    let players = Roster {
        secret_ids: vec![10, 20, 30, 40, 50],
        alive: vec![10, 20, 30, 40, 50],
        revealed: vec![],
    };
    let out = game_started(&mut few, &vec![], outcome(Phase::Night { roster: players }));
    assert_eq!(out.next, Next::Rejected);
    let mut game = enrolled(6);
    let roles = vec![Role::Villager; 7];
    let out = game_started(&mut game, &roles, night(&[10, 20, 30, 40, 50, 60]));
    assert_eq!(out.next, Next::Rejected);
    let out = game_started(
        &mut game,
        &vec![],
        outcome(Phase::Complete { winners: vec![] }),
    );
    assert_eq!(out.next, Next::Rejected);
}

#[test]
fn a_night_waits_until_the_rules_take_it_as_complete() {
    let mut game = in_night();
    assert_eq!(game.accept(Action::Night(NightAction::Kill(10, 20))), Ok(()));
    assert_eq!(continue_game(&mut game, false), idle());
    assert_eq!(game.accept(Action::Night(NightAction::Heal(30, 20))), Ok(()));
    let out = continue_game(&mut game, true);
    assert!(out.effects.is_empty());
    assert_eq!(
        out.next,
        Next::ResolveNight {
            actions: vec![NightAction::Kill(10, 20), NightAction::Heal(30, 20)]
        }
    );
    assert_eq!(game.night_actions().len(), 2);
}

#[test]
fn a_night_that_times_out_is_resolved_with_what_was_submitted() {
    let mut game = in_night();
    assert_eq!(game.accept(Action::Night(NightAction::Investigate(60, 10))), Ok(()));
    let out = timeout_fired_with(&mut game, 1, false);
    assert!(out.effects.is_empty());
    assert_eq!(out.next, Next::ResolveNight { actions: vec![NightAction::Investigate(60, 10)] });
    assert_eq!(game.timeouts(), &vec![false, false]);
}

#[test]
fn a_resolved_night_reports_opens_the_day_and_announces_the_dead() {
    let mut game = in_night();
    assert_eq!(game.accept(Action::Night(NightAction::Kill(10, 60))), Ok(()));
    let morning = day(&[10, 20, 30, 40, 50]);
    let table = morning.table.clone();
    let out = night_resolved(&mut game, morning);
    assert_eq!(
        out.effects,
        vec![
            Effect::Investigation { player: 10, target: 20, faction: Faction::Village },
            Effect::Announce(probability_table(&table)),
            Effect::OpenDiscussion,
            Effect::Announce(day_breaks(5)),
            Effect::Deaths {
                dead: vec![60],
                revealed: vec![(60, Role::Detective), (10, Role::Werewolf(0))],
            },
        ]
    );
    assert_eq!(out.next, Next::Sleep { index: 2, secs: 1800 });
    assert!(game.night_actions().is_empty());
    assert_eq!(game.timeouts(), &vec![false, false, true]);
    assert!(matches!(game.phase(), Phase::Day { .. }));
}

#[test]
fn the_dead_of_a_night_are_handed_over_together() {
    let mut game = in_night();
    let out = night_resolved(&mut game, night(&[40, 20]));
    assert_eq!(
        out.effects,
        vec![
            Effect::Deaths {
                dead: vec![10, 30, 50, 60],
                revealed: vec![(60, Role::Detective), (10, Role::Werewolf(0))],
            },
        ]
    );
    assert_eq!(out.next, Next::Sleep { index: 2, secs: 180 });
}

#[test]
fn a_night_can_follow_a_night_and_be_complete_at_once() {
    let mut game = in_night();
    let mut again = night(&[10, 20, 30, 40, 50, 60]);
    again.complete = true;
    let out = night_resolved(&mut game, again);
    assert!(out.effects.is_empty());
    assert_eq!(out.next, Next::ResolveNight { actions: vec![] });
}

#[test]
fn an_answer_that_is_no_successor_is_rejected() {
    let mut game = in_night();
    let before = format!("{:?}", game);
    let revived = Roster { secret_ids: vec![30, 10, 60, 20, 50, 40], alive: vec![10, 10], revealed: vec![] };
    assert_eq!(night_resolved(&mut game, outcome(Phase::Day { roster: revived })).next, Next::Rejected);
    let reordered = Roster { secret_ids: vec![10, 20, 30, 40, 50, 60], alive: vec![10], revealed: vec![] };
    assert_eq!(night_resolved(&mut game, outcome(Phase::Day { roster: reordered })).next, Next::Rejected);
    assert_eq!(night_resolved(&mut game, outcome(Phase::Signups { enrolled: vec![] })).next, Next::Rejected);
    assert_eq!(night_resolved(&mut game, outcome(Phase::Complete { winners: vec![99] })).next, Next::Rejected);
    assert_eq!(day_resolved(&mut game, night(&[10])).next, Next::Rejected);
    assert_eq!(format!("{:?}", game), before);
    let mut by_day = in_day();
    assert_eq!(night_resolved(&mut by_day, night(&[10])).next, Next::Rejected);
    assert_eq!(day_resolved(&mut by_day, night(&[10, 60])).effects, vec![]);
}

#[test]
fn three_of_five_votes_resolve_the_day_at_once() {
    let mut game = in_day();
    assert_eq!(game.accept(Action::Vote(10, Vote::Player(20))), Ok(()));
    assert_eq!(continue_game(&mut game, false), idle());
    assert_eq!(game.accept(Action::Vote(30, Vote::Player(20))), Ok(()));
    assert_eq!(continue_game(&mut game, false), idle());
    assert_eq!(game.accept(Action::Vote(40, Vote::Player(20))), Ok(()));
    let out = continue_game(&mut game, false);
    assert!(out.effects.is_empty());
    assert_eq!(out.next, Next::ResolveDay { resolution: Resolution::Lynch(20) });
    assert_eq!(vote_leads(&game), (3, vec![Vote::Player(20)]));
}

#[test]
fn half_of_the_voters_are_no_majority() {
    let mut game = in_night();
    night_resolved(&mut game, day(&[10, 20, 30, 40]));
    assert_eq!(game.accept(Action::Vote(10, Vote::Player(20))), Ok(()));
    assert_eq!(game.accept(Action::Vote(30, Vote::Player(20))), Ok(()));
    assert_eq!(continue_game(&mut game, false), idle());
    assert_eq!(game.accept(Action::Vote(40, Vote::Player(20))), Ok(()));
    assert_eq!(
        continue_game(&mut game, false).next,
        Next::ResolveDay { resolution: Resolution::Lynch(20) }
    );
}

#[test]
fn a_majority_for_no_lynch_resolves_the_day_too() {
    let mut game = in_day();
    for voter in [10, 20, 30] {
        assert_eq!(game.accept(Action::Vote(voter, Vote::NoLynch)), Ok(()));
    }
    assert_eq!(
        continue_game(&mut game, false).next,
        Next::ResolveDay { resolution: Resolution::NoLynch }
    );
}

#[test]
fn a_day_that_times_out_goes_by_the_leading_choice() {
    let mut game = in_day();
    assert_eq!(game.accept(Action::Vote(10, Vote::Player(20))), Ok(()));
    let out = timeout_fired_with(&mut game, 2, false);
    assert!(out.effects.is_empty());
    assert_eq!(out.next, Next::ResolveDay { resolution: Resolution::Lynch(20) });
}

#[test]
fn a_day_that_times_out_on_a_tie_or_without_votes_lynches_nobody() {
    let mut tied = in_day();
    assert_eq!(tied.accept(Action::Vote(10, Vote::Player(20))), Ok(()));
    assert_eq!(tied.accept(Action::Vote(20, Vote::Player(10))), Ok(()));
    assert_eq!(
        timeout_fired_with(&mut tied, 2, false).next,
        Next::ResolveDay { resolution: Resolution::NoLynch }
    );
    let mut silent = in_day();
    assert_eq!(
        timeout_fired_with(&mut silent, 2, false).next,
        Next::ResolveDay { resolution: Resolution::NoLynch }
    );
}

#[test]
fn a_withdrawn_vote_counts_no_more() {
    let mut game = in_day();
    for voter in [10, 30, 40] {
        assert_eq!(game.accept(Action::Vote(voter, Vote::Player(20))), Ok(()));
    }
    assert_eq!(game.accept(Action::Unvote(40)), Ok(()));
    assert_eq!(game.accept(Action::Unvote(50)), Ok(()));
    assert_eq!(vote_leads(&game), (2, vec![Vote::Player(20)]));
    assert_eq!(continue_game(&mut game, false), idle());
}

#[test]
fn a_new_vote_replaces_the_old_one() {
    let mut game = in_day();
    assert_eq!(game.accept(Action::Vote(10, Vote::Player(20))), Ok(()));
    assert_eq!(game.accept(Action::Vote(10, Vote::Player(30))), Ok(()));
    assert_eq!(game.votes().len(), 1);
    assert_eq!(vote_leads(&game), (1, vec![Vote::Player(30)]));
}

#[test]
fn a_resolved_day_closes_the_discussion_and_opens_the_night() {
    let mut game = in_day();
    for voter in [10, 30, 40] {
        assert_eq!(game.accept(Action::Vote(voter, Vote::Player(20))), Ok(()));
    }
    continue_game(&mut game, false);
    let out = day_resolved(&mut game, night(&[10, 30, 40, 50]));
    assert_eq!(
        out.effects,
        vec![
            Effect::CloseDiscussion,
            Effect::Announce(discussion_closed()),
            Effect::Deaths {
                dead: vec![20],
                revealed: vec![(60, Role::Detective), (10, Role::Werewolf(0))],
            },
            Effect::Announce(night_falls()),
        ]
    );
    assert_eq!(out.next, Next::Sleep { index: 3, secs: 180 });
    assert!(game.votes().is_empty());
    assert_eq!(game.timeouts(), &vec![false, false, false, true]);
}

#[test]
fn vote_and_timeout_resolve_the_same_day_in_the_same_way() {
    let mut by_vote = in_day();
    let mut by_time = in_day();
    for game in [&mut by_vote, &mut by_time] {
        for voter in [10, 30, 40] {
            assert_eq!(game.accept(Action::Vote(voter, Vote::Player(20))), Ok(()));
        }
    }
    let voted = continue_game(&mut by_vote, false);
    let timed = timeout_fired_with(&mut by_time, 2, false);
    assert_eq!(voted.next, Next::ResolveDay { resolution: Resolution::Lynch(20) });
    assert_eq!(timed.next, voted.next);
    let after_vote = day_resolved(&mut by_vote, night(&[10, 30, 40, 50]));
    let after_time = day_resolved(&mut by_time, night(&[10, 30, 40, 50]));
    assert_eq!(after_vote.next, after_time.next);
    assert_eq!(format!("{:?}", by_vote.phase()), format!("{:?}", by_time.phase()));
    assert_eq!(by_vote.timeouts(), by_time.timeouts());
}

#[test]
fn a_stale_timer_changes_nothing_and_sends_nothing() {
    let mut game = in_day();
    for voter in [10, 30, 40] {
        assert_eq!(game.accept(Action::Vote(voter, Vote::Player(20))), Ok(()));
    }
    continue_game(&mut game, false);
    day_resolved(&mut game, night(&[10, 30, 40, 50]));
    let before = format!("{:?}", game);
    for index in [0, 1, 2, 17] {
        assert_eq!(timeout_fired_with(&mut game, index, true), idle());
        assert_eq!(timeout_fired(&mut game, index), idle());
        assert_eq!(step(&mut game, Event::TimerFired { index }), idle());
    }
    assert_eq!(format!("{:?}", game), before);
}

#[test]
fn a_timer_fires_once() {
    let mut game = in_night();
    assert!(!game.timeout_cancelled(1));
    timeout_fired_with(&mut game, 1, false);
    assert!(game.timeout_cancelled(1));
    assert_eq!(timeout_fired_with(&mut game, 1, false), idle());
}

#[test]
fn the_end_of_the_game_is_announced_and_signups_open_again() {
    let mut game = in_day();
    let out = day_resolved(&mut game, outcome(Phase::Complete { winners: vec![50, 10] }));
    assert_eq!(
        out.effects,
        vec![
            Effect::CloseDiscussion,
            Effect::Announce(discussion_closed()),
            Effect::Winners(vec![10, 50]),
            Effect::UnlockChannel,
            Effect::ReleaseAll,
        ]
    );
    assert_eq!(out.next, Next::Idle);
    assert!(matches!(game.phase(), Phase::Signups { enrolled } if enrolled.is_empty()));
    assert!(!game.timeouts_active());
    assert!(game.votes().is_empty());
}

#[test]
fn collections_are_empty_outside_of_their_phase() {
    let mut game = in_night();
    assert_eq!(game.accept(Action::Night(NightAction::Kill(10, 20))), Ok(()));
    assert!(game.votes().is_empty());
    night_resolved(&mut game, day(&[10, 20, 30, 40, 50]));
    assert!(game.night_actions().is_empty());
    assert_eq!(game.accept(Action::Vote(10, Vote::NoLynch)), Ok(()));
    assert!(game.night_actions().is_empty());
    day_resolved(&mut game, night(&[10, 20, 30, 40, 50]));
    assert!(game.votes().is_empty());
    night_resolved(&mut game, outcome(Phase::Complete { winners: vec![] }));
    assert!(game.votes().is_empty());
    assert!(game.night_actions().is_empty());
}

#[test]
fn actions_are_refused_outside_of_their_phase() {
    let mut signups = enrolled(6);
    assert_eq!(
        signups.accept(Action::Vote(10, Vote::NoLynch)),
        Err(ActionError::NoGameRunning)
    );
    assert_eq!(
        signups.accept(Action::Night(NightAction::Kill(10, 20))),
        Err(ActionError::NoGameRunning)
    );
    let mut night = in_night();
    assert_eq!(night.accept(Action::Vote(10, Vote::NoLynch)), Err(ActionError::NoVoteOpen));
    assert_eq!(night.accept(Action::Unvote(10)), Err(ActionError::NoVoteOpen));
    assert_eq!(
        night.accept(Action::Night(NightAction::Kill(99, 20))),
        Err(ActionError::NotPlaying)
    );
    assert!(night.night_actions().is_empty());
    let mut day = in_day();
    assert_eq!(day.accept(Action::Night(NightAction::Heal(10, 20))), Err(ActionError::ItIsDay));
    assert_eq!(
        day.accept(Action::Vote(60, Vote::Player(10))),
        Err(ActionError::DeadCannotVote)
    );
    assert_eq!(day.accept(Action::Unvote(60)), Err(ActionError::DeadCannotVote));
    assert!(day.votes().is_empty());
}

#[test]
fn the_source_of_an_action_is_who_submits_it() {
    assert_eq!(Action::Night(NightAction::Heal(1, 2)).src(), 1);
    assert_eq!(Action::Night(NightAction::Investigate(3, 2)).src(), 3);
    assert_eq!(Action::Night(NightAction::Kill(4, 2)).src(), 4);
    assert_eq!(Action::Vote(5, Vote::Player(2)).src(), 5);
    assert_eq!(Action::Unvote(6).src(), 6);
    assert_eq!(NightAction::Kill(7, 8).src(), 7);
}

#[test]
fn enrollment_is_refused_twice_and_while_a_game_runs() {
    let mut game = enrolled(2);
    assert_eq!(game.sign_up(10), Err(SignupError::AlreadySignedUp));
    assert_eq!(game.sign_out(30), Err(SignupError::NotSignedUp));
    assert_eq!(game.sign_out(10), Ok(()));
    assert!(matches!(game.phase(), Phase::Signups { enrolled } if enrolled == &vec![20]));
    let mut running = in_night();
    assert_eq!(running.sign_up(70), Err(SignupError::GameRunning));
    assert_eq!(running.sign_out(10), Err(SignupError::GameRunning));
}

#[test]
fn role_distribution_has_two_werewolves_for_five_players() {
    assert_eq!(role_distribution(2, true), vec![Role::Detective]);
    assert_eq!(role_distribution(3, true), vec![Role::Werewolf(0), Role::Detective]);
    assert_eq!(role_distribution(4, true), vec![Role::Werewolf(0), Role::Detective]);
    assert_eq!(
        role_distribution(5, true),
        vec![Role::Werewolf(0), Role::Werewolf(1), Role::Detective, Role::Healer]
    );
    assert_eq!(
        role_distribution(5, false),
        vec![Role::Werewolf(0), Role::Werewolf(1), Role::Detective]
    );
    assert_eq!(role_distribution(10, false).len(), 5);
    assert_eq!(role_distribution(12, true).len(), 6);
}

#[test]
fn a_timer_draws_the_coin_for_the_healer() {
    let mut game = enrolled(6);
    continue_game(&mut game, false);
    let out = timeout_fired(&mut game, 0);
    let without = vec![Role::Werewolf(0), Role::Werewolf(1), Role::Detective];
    let mut with = without.clone();
    with.push(Role::Healer);
    assert_eq!(out.effects, vec![Effect::LockChannel]);
    assert!(out.next == Next::Start { roles: with } || out.next == Next::Start { roles: without });
}

#[test]
fn step_takes_each_event_to_its_step() {
    let mut game = enrolled(6);
    let out = step(&mut game, Event::Changed { complete: false });
    assert_eq!(out.next, Next::Sleep { index: 0, secs: 60 });
    let out = step(&mut game, Event::TimerFired { index: 0 });
    let roles = match out.next {
        Next::Start { roles } => roles,
        other => panic!("unexpected: {:?}", other),
    };
    let out = step(
        &mut game,
        Event::Started { roles, outcome: night(&[10, 20, 30, 40, 50, 60]) },
    );
    assert_eq!(out.next, Next::Sleep { index: 1, secs: 180 });
    let out = step(&mut game, Event::NightResolved { outcome: day(&[10, 20, 30, 40, 50]) });
    assert_eq!(out.next, Next::Sleep { index: 2, secs: 1800 });
    let out = step(&mut game, Event::DayResolved { outcome: night(&[10, 20, 30]) });
    assert_eq!(out.next, Next::Sleep { index: 3, secs: 180 });
}

fn name(id: u64, name: &str, discriminator: Option<u16>) -> PlayerName {
    PlayerName { id, name: name.to_string(), discriminator }
}

#[test]
fn the_dead_are_named_in_the_order_of_their_names() {
    let names = vec![
        name(10, "zoe", None),
        name(30, "anna", Some(7)),
        name(50, "bob", None),
        name(60, "anna", Some(3)),
    ];
    let revealed = vec![(60, Role::Detective), (10, Role::Werewolf(0))];
    assert_eq!(
        announce_dead(&vec![10, 30, 50, 60], &revealed, &names),
        vec![
            Effect::RemoveRole(60),
            Effect::RemoveRole(30),
            Effect::RemoveRole(50),
            Effect::RemoveRole(10),
            Effect::Announce(
                "<@60> ist tot und war Detektiv. <@30> ist tot. <@50> ist tot. <@10> ist tot und war Werwolf (Rollenrang 1)."
                    .to_string()
            ),
        ]
    );
}

#[test]
fn under_one_name_the_discriminator_decides_and_none_comes_first() {
    let names = vec![
        name(1, "eve", Some(9)),
        name(2, "eve", None),
        name(3, "eve", Some(2)),
        name(4, "Eve", Some(5)),
        name(5, "ev", Some(8)),
    ];
    assert_eq!(
        announce_dead(&vec![1, 2, 3, 4, 5], &vec![], &names),
        vec![
            Effect::RemoveRole(4),
            Effect::RemoveRole(5),
            Effect::RemoveRole(2),
            Effect::RemoveRole(3),
            Effect::RemoveRole(1),
            Effect::Announce(
                "<@4> ist tot. <@5> ist tot. <@2> ist tot. <@3> ist tot. <@1> ist tot.".to_string()
            ),
        ]
    );
}

#[test]
fn players_in_the_same_place_keep_their_order_and_nobody_dead_is_nothing() {
    let names = vec![name(8, "kim", Some(1)), name(3, "kim", Some(1)), name(5, "al", None)];
    assert_eq!(
        announce_dead(&vec![3, 5, 8], &vec![], &names),
        vec![
            Effect::RemoveRole(5),
            Effect::RemoveRole(3),
            Effect::RemoveRole(8),
            Effect::Announce("<@5> ist tot. <@3> ist tot. <@8> ist tot.".to_string()),
        ]
    );
    assert_eq!(announce_dead(&vec![], &vec![], &names), vec![]);
    assert_eq!(
        announce_dead(&vec![9], &vec![], &names),
        vec![Effect::RemoveRole(9), Effect::Announce("<@9> ist tot.".to_string())]
    );
}

#[test]
fn the_winners_are_named_in_the_order_of_their_names() {
    let names = vec![name(10, "zoe", None), name(50, "bob", None), name(20, "carl", Some(1))];
    assert_eq!(
        announce_winners(&vec![10, 20, 50], &names),
        vec![Effect::Announce(
            "das Spiel ist vorbei: <@50> <@20> <@10> haben gewonnen".to_string()
        )]
    );
    assert_eq!(
        announce_winners(&vec![], &names),
        vec![Effect::Announce("das Spiel ist vorbei: niemand hat gewonnen".to_string())]
    );
    assert_eq!(
        announce_winners(&vec![50], &names),
        vec![Effect::Announce("das Spiel ist vorbei: <@50> hat gewonnen".to_string())]
    );
}

#[test]
fn a_timer_that_is_given_up_lets_the_next_step_issue_one() {
    let mut game = enrolled(6);
    let out = continue_game(&mut game, false);
    assert_eq!(out.next, Next::Sleep { index: 0, secs: 60 });
    assert_eq!(continue_game(&mut game, false), idle());
    timer_dropped(&mut game, 0);
    assert_eq!(game.timeouts(), &vec![false]);
    let out = continue_game(&mut game, false);
    assert_eq!(out.effects, vec![Effect::Announce(starting_soon())]);
    assert_eq!(out.next, Next::Sleep { index: 1, secs: 60 });
    assert_eq!(game.timeouts(), &vec![false, true]);
}

#[test]
fn giving_up_a_timer_leaves_the_others_and_unknown_indices_alone() {
    let mut game = in_day();
    assert_eq!(game.timeouts(), &vec![false, false, true]);
    timer_dropped(&mut game, 7);
    timer_dropped(&mut game, 0);
    assert_eq!(game.timeouts(), &vec![false, false, true]);
    assert_eq!(step(&mut game, Event::TimerDropped { index: 2 }), idle());
    assert_eq!(game.timeouts(), &vec![false, false, false]);
    assert!(matches!(game.phase(), Phase::Day { .. }));
    assert_eq!(timeout_fired_with(&mut game, 2, false), idle());
}
