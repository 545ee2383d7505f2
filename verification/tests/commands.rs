use peter::werewolf::commands::{
    channel_check, command_day, command_night, parse_action, ChannelError, Config, ParseError,
};
use peter::werewolf::names::PlayerName;
use peter::werewolf::game::{Action, ActionError, Event, Next, SignupError};
use peter::werewolf::registry::{command_in, Registry};
use peter::werewolf::rules::{NightAction, Outcome, Phase, Roster};
use peter::werewolf::vote::Vote;

fn running() -> Registry {
    let mut registry = Registry::new();
    let players: Vec<u64> = (1..=6).collect();
    for who in &players {
        assert_eq!(command_in(&mut registry, 1, *who), Ok(()));
    }
    registry.step(1, Event::Changed { complete: false });
    let roles = match registry.step(1, Event::TimerFired { index: 0 }).next {
        Next::Start { roles } => roles,
        other => panic!("unexpected: {:?}", other),
    };
    registry.step(
        1,
        Event::Started {
            roles,
            outcome: Outcome {
                phase: Phase::Night {
                    roster: Roster {
                        secret_ids: players.clone(),
                        alive: players.clone(),
                        revealed: vec![],
                    },
                },
                table: vec![],
                investigations: vec![],
                complete: false,
            },
        },
    );
    registry
}

fn names() -> Vec<PlayerName> {
    vec![
        PlayerName { id: 1, name: "anna".to_string(), discriminator: None },
        PlayerName { id: 2, name: "bob".to_string(), discriminator: None },
        PlayerName { id: 3, name: "eve".to_string(), discriminator: None },
        PlayerName { id: 4, name: "eve".to_string(), discriminator: None },
        PlayerName { id: 99, name: "zoe".to_string(), discriminator: None },
    ]
}

#[test]
fn channel_check_wants_the_channel_of_the_configured_game() {
    let conf = Config { role: 5, text_channel: 7, voice_channel: None };
    assert_eq!(channel_check(Some(1), 7, Some(conf)), Ok(()));
    assert_eq!(channel_check(Some(1), 8, Some(conf)), Err(ChannelError::WrongChannel));
    assert_eq!(channel_check(Some(1), 7, None), Err(ChannelError::NotConfigured));
    assert_eq!(channel_check(None, 7, Some(conf)), Err(ChannelError::NotInGuild));
    assert_eq!(channel_check(None, 7, None), Err(ChannelError::NotInGuild));
}

#[test]
fn every_refusal_has_its_message() {
    assert_eq!(ChannelError::NotInGuild.message(), "Dieser Befehl funktioniert nur in einem Channel.");
    assert_eq!(
        ChannelError::NotConfigured.message(),
        "Werwölfe ist auf diesem Server noch nicht eingerichtet."
    );
    assert_eq!(
        ChannelError::WrongChannel.message(),
        "Dieser Befehl funktioniert nur im Werwölfe-Channel."
    );
    assert_eq!(
        ActionError::NotInOneGame.message(),
        "du spielst nicht mit oder bist in mehreren Spielen gleichzeitig"
    );
    assert_eq!(ActionError::NotPlaying.message(), "du spielst nicht mit");
    assert_eq!(ActionError::NoVoteOpen.message(), "aktuell läuft keine Abstimmung");
    assert_eq!(ActionError::DeadCannotVote.message(), "tote Spieler können nicht abstimmen");
    assert_eq!(ActionError::ItIsDay.message(), "es ist Tag");
    assert_eq!(ActionError::NoGameRunning.message(), "aktuell läuft kein Spiel");
    assert_eq!(
        SignupError::InOtherGame.message(),
        "du bist schon in einem Spiel auf einem anderen Server"
    );
    assert_eq!(SignupError::AlreadySignedUp.message(), "du bist schon angemeldet");
    assert_eq!(SignupError::NotSignedUp.message(), "du warst nicht angemeldet");
    assert_eq!(
        SignupError::GameRunning.message(),
        "bitte warte, bis das aktuelle Spiel vorbei ist"
    );
    assert_eq!(ParseError::NotPlaying(42).message(), "<@42> spielt nicht mit");
    assert_eq!(ParseError::Unreadable.message(), "kann das Ziel nicht lesen");
}

#[test]
fn night_mutes_all_but_the_author() {
    let with_voice = Config { role: 5, text_channel: 7, voice_channel: Some(9) };
    let without = Config { role: 5, text_channel: 7, voice_channel: None };
    assert_eq!(command_night(&with_voice, &vec![1, 2, 3], 2), vec![1, 3]);
    assert_eq!(command_night(&with_voice, &vec![1, 2, 3], 4), vec![1, 2, 3]);
    assert_eq!(command_night(&without, &vec![1, 2, 3], 2), Vec::<u64>::new());
    assert_eq!(command_day(&with_voice, &vec![1, 2, 3]), vec![1, 2, 3]);
    assert_eq!(command_day(&without, &vec![1, 2, 3]), Vec::<u64>::new());
}

#[test]
fn night_actions_are_read_with_a_mention() {
    let registry = running();
    assert_eq!(
        parse_action(&registry, &names(), 1, "heal <@2>"),
        Some(Ok(Action::Night(NightAction::Heal(1, 2))))
    );
    assert_eq!(
        parse_action(&registry, &names(), 1, "!h <@!3>"),
        Some(Ok(Action::Night(NightAction::Heal(1, 3))))
    );
    assert_eq!(
        parse_action(&registry, &names(), 2, "investigate   <@1>"),
        Some(Ok(Action::Night(NightAction::Investigate(2, 1))))
    );
    assert_eq!(
        parse_action(&registry, &names(), 2, "inspect <@1>"),
        Some(Ok(Action::Night(NightAction::Investigate(2, 1))))
    );
    assert_eq!(
        parse_action(&registry, &names(), 2, "i <@1>"),
        Some(Ok(Action::Night(NightAction::Investigate(2, 1))))
    );
    assert_eq!(
        parse_action(&registry, &names(), 3, "kill <@6> now"),
        Some(Ok(Action::Night(NightAction::Kill(3, 6))))
    );
    assert_eq!(
        parse_action(&registry, &names(), 3, "k <@6>"),
        Some(Ok(Action::Night(NightAction::Kill(3, 6))))
    );
}

#[test]
fn a_target_can_be_named() {
    let registry = running();
    assert_eq!(
        parse_action(&registry, &names(), 1, "kill bob"),
        Some(Ok(Action::Night(NightAction::Kill(1, 2))))
    );
    assert_eq!(
        parse_action(&registry, &names(), 1, "vote anna please"),
        Some(Ok(Action::Vote(1, Vote::Player(1))))
    );
}

#[test]
fn a_target_that_cannot_be_read_is_an_error() {
    let registry = running();
    assert_eq!(parse_action(&registry, &names(), 1, "kill eve"), Some(Err(ParseError::Unreadable)));
    assert_eq!(parse_action(&registry, &names(), 1, "kill zoe"), Some(Err(ParseError::Unreadable)));
    assert_eq!(parse_action(&registry, &names(), 1, "kill carl"), Some(Err(ParseError::Unreadable)));
    assert_eq!(parse_action(&registry, &names(), 1, "kill"), Some(Err(ParseError::Unreadable)));
    assert_eq!(parse_action(&registry, &names(), 1, "heal "), Some(Err(ParseError::Unreadable)));
    assert_eq!(
        parse_action(&registry, &names(), 1, "kill <@77>"),
        Some(Err(ParseError::NotPlaying(77)))
    );
}

#[test]
fn votes_are_read() {
    let registry = running();
    assert_eq!(
        parse_action(&registry, &names(), 4, "vote <@5>"),
        Some(Ok(Action::Vote(4, Vote::Player(5))))
    );
    assert_eq!(
        parse_action(&registry, &names(), 4, "v <@5>"),
        Some(Ok(Action::Vote(4, Vote::Player(5))))
    );
    assert_eq!(parse_action(&registry, &names(), 4, "vote"), Some(Ok(Action::Unvote(4))));
    assert_eq!(parse_action(&registry, &names(), 4, "vote   "), Some(Ok(Action::Unvote(4))));
    assert_eq!(parse_action(&registry, &names(), 4, "unvote"), Some(Ok(Action::Unvote(4))));
    assert_eq!(parse_action(&registry, &names(), 4, "!unvote now"), Some(Ok(Action::Unvote(4))));
    for text in ["vote nl", "vote NL", "v No Lynch", "vote nolynch", "vote NoLynch"] {
        assert_eq!(
            parse_action(&registry, &names(), 4, text),
            Some(Ok(Action::Vote(4, Vote::NoLynch)))
        );
    }
    assert_eq!(
        parse_action(&registry, &names(), 4, "vote nl now"),
        Some(Err(ParseError::Unreadable))
    );
}

#[test]
fn other_messages_are_no_game_actions() {
    let registry = running();
    assert_eq!(parse_action(&registry, &names(), 1, "hello <@2>"), None);
    assert_eq!(parse_action(&registry, &names(), 1, ""), None);
    assert_eq!(parse_action(&registry, &names(), 1, " kill <@2>"), None);
    assert_eq!(parse_action(&registry, &names(), 1, "!"), None);
    assert_eq!(parse_action(&registry, &names(), 1, "Kill <@2>"), None);
}

#[test]
fn who_plays_in_no_game_has_no_game_actions() {
    let registry = running();
    assert_eq!(parse_action(&registry, &names(), 77, "kill <@2>"), None);
    let empty = Registry::new();
    assert_eq!(parse_action(&empty, &names(), 1, "unvote"), None);
}
