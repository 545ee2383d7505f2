use peter::werewolf::game::{
    Action, ActionError, Effect, Event, Next, SignupError,
};
use peter::werewolf::messages::starting_soon;
use peter::werewolf::registry::{
    command_in, command_out, handle_action, player_in_game, submit, Registry,
};
use peter::werewolf::vote::Resolution;
use peter::werewolf::rules::{NightAction, Outcome, Phase, Roster};
use peter::werewolf::vote::Vote;

fn night_of(players: &[u64]) -> Outcome {
    Outcome {
        phase: Phase::Night {
            roster: Roster {
                secret_ids: players.to_vec(),
                alive: players.to_vec(),
                revealed: vec![],
            },
        },
        table: vec![],
        investigations: vec![],
        complete: false,
    }
}

fn day_of(players: &[u64], alive: &[u64]) -> Outcome {
    Outcome {
        phase: Phase::Day {
            roster: Roster {
                secret_ids: players.to_vec(),
                alive: alive.to_vec(),
                revealed: vec![],
            },
        },
        table: vec![],
        investigations: vec![],
        complete: false,
    }
}

/// Starts a game in `guild` with six players whose ids begin at `first`.
fn start(registry: &mut Registry, guild: u64, first: u64) -> Vec<u64> {
    let players: Vec<u64> = (first..first + 6).collect();
    for who in &players {
        assert_eq!(command_in(registry, guild, *who), Ok(()));
    }
    let out = registry.step(guild, Event::Changed { complete: false });
    let index = match out.next {
        Next::Sleep { index, .. } => index,
        other => panic!("unexpected: {:?}", other),
    };
    let out = registry.step(guild, Event::TimerFired { index });
    let roles = match out.next {
        Next::Start { roles } => roles,
        other => panic!("unexpected: {:?}", other),
    };
    let out = registry.step(guild, Event::Started { roles, outcome: night_of(&players) });
    assert!(matches!(out.next, Next::Sleep { .. }));
    players
}

#[test]
fn a_registry_starts_without_games() {
    let registry = Registry::new();
    assert_eq!(registry.len(), 0);
    assert!(!registry.has_game(1));
    assert!(registry.game(1).is_none());
    assert_eq!(registry.locate(5), None);
}

#[test]
fn the_first_enrollment_makes_the_game_of_the_group() {
    let mut registry = Registry::new();
    assert_eq!(command_in(&mut registry, 1, 10), Ok(()));
    assert_eq!(command_in(&mut registry, 1, 11), Ok(()));
    assert_eq!(command_in(&mut registry, 2, 20), Ok(()));
    assert_eq!(registry.len(), 2);
    let game = registry.game(1).expect("game of group 1");
    assert_eq!(game.guild(), 1);
    assert!(matches!(game.phase(), Phase::Signups { enrolled } if enrolled == &vec![10, 11]));
}

#[test]
fn nobody_enrolls_in_the_games_of_two_groups() {
    let mut registry = Registry::new();
    assert_eq!(command_in(&mut registry, 1, 10), Ok(()));
    assert_eq!(command_in(&mut registry, 2, 10), Err(SignupError::InOtherGame));
    assert!(!registry.has_game(2));
    assert_eq!(command_in(&mut registry, 1, 10), Err(SignupError::AlreadySignedUp));
    assert_eq!(command_out(&mut registry, 1, 10), Ok(()));
    assert_eq!(command_in(&mut registry, 2, 10), Ok(()));
    assert_eq!(command_in(&mut registry, 1, 10), Err(SignupError::InOtherGame));
}

#[test]
fn a_player_of_a_running_game_cannot_enroll_elsewhere() {
    let mut registry = Registry::new();
    let players = start(&mut registry, 1, 100);
    assert_eq!(command_in(&mut registry, 2, players[3]), Err(SignupError::InOtherGame));
    assert_eq!(command_in(&mut registry, 1, 999), Err(SignupError::GameRunning));
    assert_eq!(command_out(&mut registry, 1, players[0]), Err(SignupError::GameRunning));
    assert_eq!(command_in(&mut registry, 2, 999), Ok(()));
}

#[test]
fn withdrawing_without_enrollment_is_refused_but_makes_the_game() {
    let mut registry = Registry::new();
    assert_eq!(command_out(&mut registry, 3, 10), Err(SignupError::NotSignedUp));
    assert!(registry.has_game(3));
}

#[test]
fn five_enrolled_wait_and_the_sixth_arms_the_timer() {
    let mut registry = Registry::new();
    for who in 1..=5 {
        assert_eq!(command_in(&mut registry, 9, who), Ok(()));
        let out = registry.step(9, Event::Changed { complete: false });
        assert!(out.effects.is_empty());
        assert_eq!(out.next, Next::Idle);
    }
    assert_eq!(command_in(&mut registry, 9, 6), Ok(()));
    let out = registry.step(9, Event::Changed { complete: false });
    assert_eq!(out.effects, vec![Effect::Announce(starting_soon())]);
    assert_eq!(out.next, Next::Sleep { index: 0, secs: 60 });
}

#[test]
fn an_action_goes_to_the_game_of_its_source() {
    let mut registry = Registry::new();
    let first = start(&mut registry, 1, 100);
    let second = start(&mut registry, 2, 200);
    let action = Action::Night(NightAction::Kill(second[0], second[1]));
    assert_eq!(handle_action(&mut registry, action), Ok(2));
    assert_eq!(registry.game(2).unwrap().night_actions(), &vec![NightAction::Kill(200, 201)]);
    assert!(registry.game(1).unwrap().night_actions().is_empty());
    assert_eq!(registry.locate(first[2]), Some(1));
    assert_eq!(registry.locate(second[2]), Some(2));
}

#[test]
fn who_plays_nowhere_is_told_so() {
    let mut registry = Registry::new();
    start(&mut registry, 1, 100);
    assert_eq!(command_in(&mut registry, 2, 7), Ok(()));
    assert_eq!(
        handle_action(&mut registry, Action::Vote(7, Vote::NoLynch)),
        Err(ActionError::NotInOneGame)
    );
    assert_eq!(
        handle_action(&mut registry, Action::Unvote(8)),
        Err(ActionError::NotInOneGame)
    );
    assert_eq!(registry.locate(7), None);
}

#[test]
fn a_vote_at_night_is_refused_by_the_game() {
    let mut registry = Registry::new();
    let players = start(&mut registry, 1, 100);
    assert_eq!(
        handle_action(&mut registry, Action::Vote(players[0], Vote::NoLynch)),
        Err(ActionError::NoVoteOpen)
    );
}

#[test]
fn by_day_only_the_living_are_found() {
    let mut registry = Registry::new();
    let players = start(&mut registry, 1, 100);
    let out = registry.step(
        1,
        Event::NightResolved { outcome: day_of(&players, &players[1..]) },
    );
    assert!(matches!(out.next, Next::Sleep { secs: 1800, .. }));
    assert_eq!(
        handle_action(&mut registry, Action::Vote(players[0], Vote::NoLynch)),
        Err(ActionError::NotInOneGame)
    );
    assert_eq!(
        handle_action(&mut registry, Action::Vote(players[1], Vote::Player(players[2]))),
        Ok(1)
    );
    assert_eq!(
        handle_action(&mut registry, Action::Night(NightAction::Kill(players[1], players[2]))),
        Err(ActionError::ItIsDay)
    );
    assert_eq!(registry.game(1).unwrap().votes().get(&players[1]), Some(&Vote::Player(102)));
    assert!(player_in_game(&registry, players[0], 1));
}

#[test]
fn player_in_game_knows_the_players_of_a_running_game() {
    let mut registry = Registry::new();
    let players = start(&mut registry, 1, 100);
    assert_eq!(command_in(&mut registry, 2, 7), Ok(()));
    assert!(player_in_game(&registry, players[5], 1));
    assert!(!player_in_game(&registry, players[5], 2));
    assert!(!player_in_game(&registry, 7, 2));
    assert!(!player_in_game(&registry, 7, 3));
}

#[test]
fn a_game_that_is_over_frees_its_players() {
    let mut registry = Registry::new();
    let players = start(&mut registry, 1, 100);
    registry.step(
        1,
        Event::NightResolved {
            outcome: Outcome {
                phase: Phase::Complete { winners: vec![players[0]] },
                table: vec![],
                investigations: vec![],
                complete: false,
            },
        },
    );
    assert!(!player_in_game(&registry, players[0], 1));
    assert_eq!(command_in(&mut registry, 2, players[0]), Ok(()));
    assert_eq!(command_in(&mut registry, 1, players[1]), Ok(()));
}

#[test]
fn steps_of_one_game_leave_the_others_alone() {
    let mut registry = Registry::new();
    start(&mut registry, 1, 100);
    let before = format!("{:?}", registry.game(1).unwrap());
    let second = start(&mut registry, 2, 200);
    registry.step(2, Event::NightResolved { outcome: day_of(&second, &second) });
    assert_eq!(format!("{:?}", registry.game(1).unwrap()), before);
}

#[test]
fn the_third_of_five_votes_resolves_the_day_as_it_arrives() {
    let mut registry = Registry::new();
    let players = start(&mut registry, 1, 100);
    registry.step(1, Event::NightResolved { outcome: day_of(&players, &players[..5]) });
    for voter in [100, 101] {
        let (guild, out) = submit(&mut registry, Action::Vote(voter, Vote::Player(104)), false).unwrap();
        assert_eq!(guild, 1);
        assert!(out.effects.is_empty());
        assert_eq!(out.next, Next::Idle);
    }
    let (guild, out) = submit(&mut registry, Action::Vote(102, Vote::Player(104)), false).unwrap();
    assert_eq!(guild, 1);
    assert!(out.effects.is_empty());
    assert_eq!(out.next, Next::ResolveDay { resolution: Resolution::Lynch(104) });
}

#[test]
fn a_night_action_that_completes_the_night_resolves_it_as_it_arrives() {
    let mut registry = Registry::new();
    let players = start(&mut registry, 1, 100);
    let first = Action::Night(NightAction::Kill(players[0], players[1]));
    let (_, out) = submit(&mut registry, first, false).unwrap();
    assert_eq!(out.next, Next::Idle);
    let second = Action::Night(NightAction::Heal(players[2], players[1]));
    let (_, out) = submit(&mut registry, second, true).unwrap();
    assert_eq!(
        out.next,
        Next::ResolveNight {
            actions: vec![NightAction::Kill(100, 101), NightAction::Heal(102, 101)]
        }
    );
}

#[test]
fn a_refused_action_takes_no_step() {
    let mut registry = Registry::new();
    let players = start(&mut registry, 1, 100);
    let before = format!("{:?}", registry);
    assert_eq!(
        submit(&mut registry, Action::Unvote(players[0]), true),
        Err(ActionError::NoVoteOpen)
    );
    assert_eq!(submit(&mut registry, Action::Unvote(5), true), Err(ActionError::NotInOneGame));
    assert_eq!(format!("{:?}", registry), before);
}
