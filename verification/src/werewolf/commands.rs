//! What participants type: the commands of the group's channel and the
//! game actions that are sent in private.

use crate::lists::{contains, copy_vec, exactly_one, except, remove_all};
use crate::parse::{
    after_word,
    eat_user_mention,
    eat_word,
    first_word,
    leading_user,
    next_word,
};
use crate::text::same_text;
use crate::werewolf::game::{Action, ActionError, GameModel, SignupError};
use crate::werewolf::messages::{mention_text, push_mention};
use crate::werewolf::names::PlayerName;
use crate::werewolf::registry::{playing_at, Registry};
use crate::werewolf::rules::NightAction;
use crate::werewolf::vote::Vote;
use vstd::prelude::*;

verus! {

/// How a group has set the game up.
#[derive(Debug, Clone, Copy, PartialEq, Eq, Structural)]
pub struct Config {
    /// The role that lets the players write during the day.
    pub role: u64,
    /// The channel in which the game is played.
    pub text_channel: u64,
    /// The voice channel whose members are muted at night.
    pub voice_channel: Option<u64>,
}

/// Why a command of the game is not taken where it was typed.
#[derive(Debug, Clone, Copy, PartialEq, Eq, Structural)]
pub enum ChannelError {
    /// The command was typed outside of any group.
    NotInGuild,
    /// The group has not set the game up.
    NotConfigured,
    /// The command was typed in another channel than the game's.
    WrongChannel,
}

/// Whether a command of the game may be typed here: in a group that has set
/// the game up, and in the channel of the game.
pub open spec fn channel_rule(guild: Option<u64>, channel: u64, conf: Option<Config>) -> Result<
    (),
    ChannelError,
> {
    if guild is None {
        Err(ChannelError::NotInGuild)
    } else if conf is None {
        Err(ChannelError::NotConfigured)
    } else if channel != conf->0.text_channel {
        Err(ChannelError::WrongChannel)
    } else {
        Ok(())
    }
}

/// Whether a command of the game may be typed here. `guild` is the group of
/// the message, `channel` its channel and `conf` what the group has set up.
pub fn channel_check(guild: Option<u64>, channel: u64, conf: Option<Config>) -> (result: Result<
    (),
    ChannelError,
>)
    ensures
        result == channel_rule(guild, channel, conf),
{
    if guild.is_some() {
        if let Some(conf) = conf {
            if channel == conf.text_channel {
                Ok(())
            } else {
                Err(ChannelError::WrongChannel)
            }
        } else {
            Err(ChannelError::NotConfigured)
        }
    } else {
        Err(ChannelError::NotInGuild)
    }
}

impl ChannelError {
    /// What the participant is told.
    pub open spec fn text(self) -> Seq<char> {
        match self {
            ChannelError::NotInGuild => "Dieser Befehl funktioniert nur in einem Channel."@,
            ChannelError::NotConfigured => "Werwölfe ist auf diesem Server noch nicht eingerichtet."@,
            ChannelError::WrongChannel => "Dieser Befehl funktioniert nur im Werwölfe-Channel."@,
        }
    }

    /// What the participant is told.
    pub fn message(&self) -> (text: &'static str)
        ensures
            text@ == self.text(),
    {
        match self {
            ChannelError::NotInGuild => "Dieser Befehl funktioniert nur in einem Channel.",
            ChannelError::NotConfigured => "Werwölfe ist auf diesem Server noch nicht eingerichtet.",
            ChannelError::WrongChannel => "Dieser Befehl funktioniert nur im Werwölfe-Channel.",
        }
    }
}

impl ActionError {
    /// What the participant is told.
    pub open spec fn text(self) -> Seq<char> {
        match self {
            ActionError::NotInOneGame => "du spielst nicht mit oder bist in mehreren Spielen gleichzeitig"@,
            ActionError::NotPlaying => "du spielst nicht mit"@,
            ActionError::NoVoteOpen => "aktuell läuft keine Abstimmung"@,
            ActionError::DeadCannotVote => "tote Spieler können nicht abstimmen"@,
            ActionError::ItIsDay => "es ist Tag"@,
            ActionError::NoGameRunning => "aktuell läuft kein Spiel"@,
        }
    }

    /// What the participant is told.
    pub fn message(&self) -> (text: &'static str)
        ensures
            text@ == self.text(),
    {
        match self {
            ActionError::NotInOneGame => "du spielst nicht mit oder bist in mehreren Spielen gleichzeitig",
            ActionError::NotPlaying => "du spielst nicht mit",
            ActionError::NoVoteOpen => "aktuell läuft keine Abstimmung",
            ActionError::DeadCannotVote => "tote Spieler können nicht abstimmen",
            ActionError::ItIsDay => "es ist Tag",
            ActionError::NoGameRunning => "aktuell läuft kein Spiel",
        }
    }
}

impl SignupError {
    /// What the participant is told.
    pub open spec fn text(self) -> Seq<char> {
        match self {
            SignupError::InOtherGame => "du bist schon in einem Spiel auf einem anderen Server"@,
            SignupError::AlreadySignedUp => "du bist schon angemeldet"@,
            SignupError::NotSignedUp => "du warst nicht angemeldet"@,
            SignupError::GameRunning => "bitte warte, bis das aktuelle Spiel vorbei ist"@,
        }
    }

    /// What the participant is told.
    pub fn message(&self) -> (text: &'static str)
        ensures
            text@ == self.text(),
    {
        match self {
            SignupError::InOtherGame => "du bist schon in einem Spiel auf einem anderen Server",
            SignupError::AlreadySignedUp => "du bist schon angemeldet",
            SignupError::NotSignedUp => "du warst nicht angemeldet",
            SignupError::GameRunning => "bitte warte, bis das aktuelle Spiel vorbei ist",
        }
    }
}

/// The members of the voice channel who are muted when night falls: all but
/// the one who gives the command. Without a voice channel nobody is.
pub open spec fn night_mutes(conf: Config, members: Seq<u64>, author: u64) -> Seq<u64> {
    if conf.voice_channel is Some {
        except(members, author)
    } else {
        Seq::empty()
    }
}

/// The members of the voice channel who are muted when night falls: all but
/// the one who gives the command. `members` are those who are in the
/// group's voice channel.
pub fn command_night(conf: &Config, members: &Vec<u64>, author: u64) -> (muted: Vec<u64>)
    ensures
        muted@ == night_mutes(*conf, members@, author),
{
    if conf.voice_channel.is_some() {
        remove_all(members, author)
    } else {
        Vec::new()
    }
}

/// The members of the voice channel whose mute is lifted when day breaks:
/// all of them. Without a voice channel nobody is.
pub open spec fn day_unmutes(conf: Config, members: Seq<u64>) -> Seq<u64> {
    if conf.voice_channel is Some {
        members
    } else {
        Seq::empty()
    }
}

/// The members of the voice channel whose mute is lifted when day breaks.
/// `members` are those who are in the group's voice channel.
pub fn command_day(conf: &Config, members: &Vec<u64>) -> (unmuted: Vec<u64>)
    ensures
        unmuted@ == day_unmutes(*conf, members@),
{
    if conf.voice_channel.is_some() {
        copy_vec(members)
    } else {
        Vec::new()
    }
}

/// Why a game action could not be read.
#[derive(Debug, Clone, Copy, PartialEq, Eq, Structural)]
pub enum ParseError {
    /// The participant who is mentioned is no player of the game.
    NotPlaying(u64),
    /// The action names nobody whom the game knows.
    Unreadable,
}

impl ParseError {
    /// What the participant is told.
    pub open spec fn text(self) -> Seq<char> {
        match self {
            ParseError::NotPlaying(id) => mention_text(id) + " spielt nicht mit"@,
            ParseError::Unreadable => "kann das Ziel nicht lesen"@,
        }
    }

    /// What the participant is told.
    pub fn message(&self) -> (text: String)
        ensures
            text@ == self.text(),
    {
        let mut text = String::new();
        match self {
            ParseError::NotPlaying(id) => {
                push_mention(&mut text, *id);
                text.append(" spielt nicht mit");
                assert(text@ =~= self.text());
            },
            ParseError::Unreadable => {
                text.append("kann das Ziel nicht lesen");
                assert(text@ =~= self.text());
            },
        }
        text
    }
}

/// The letter in lower case, where it is a capital of the Latin alphabet.
pub open spec fn ascii_lower(c: char) -> char {
    if 'A' <= c && c <= 'Z' {
        ((c as u8) + 32) as char
    } else {
        c
    }
}

/// The text with its Latin capitals in lower case.
pub open spec fn lowered(s: Seq<char>) -> Seq<char> {
    Seq::new(s.len(), |i: int| ascii_lower(s[i]))
}

fn lower(c: char) -> (l: char)
    ensures
        l == ascii_lower(c),
{
    if 'A' <= c && c <= 'Z' {
        ((c as u8) + 32) as char
    } else {
        c
    }
}

/// Whether the text, with its Latin capitals in lower case, is `word`.
fn same_lowered(text: &str, word: &str) -> (same: bool)
    ensures
        same == (lowered(text@) == word@),
{
    let n = text.unicode_len();
    if n != word.unicode_len() {
        return false;
    }
    let mut i: usize = 0;
    while i < n
        invariant
            i <= n,
            n == text@.len(),
            n == word@.len(),
            forall|k: int| 0 <= k < i ==> ascii_lower(text@[k]) == word@[k],
        decreases n - i,
    {
        if lower(text.get_char(i)) != word.get_char(i) {
            assert(lowered(text@)[i as int] != word@[i as int]);
            return false;
        }
        i += 1;
    }
    assert(lowered(text@) =~= word@);
    true
}

/// What a command aims an action at somebody for.
#[derive(Debug, Clone, Copy, PartialEq, Eq, Structural)]
pub enum Verb {
    Heal,
    Investigate,
    Kill,
    Vote,
}

/// The message without the exclamation mark that may stand at its start.
pub open spec fn command_body(msg: Seq<char>) -> Seq<char> {
    if msg.len() > 0 && msg[0] == '!' {
        msg.skip(1)
    } else {
        msg
    }
}

/// The name of the command: the first word of the message.
pub open spec fn command_name(msg: Seq<char>) -> Seq<char> {
    first_word(command_body(msg))
}

/// What follows the name of the command and the blanks behind it.
pub open spec fn command_args(msg: Seq<char>) -> Seq<char> {
    after_word(command_body(msg))
}

/// What the name of a command aims at somebody for.
pub open spec fn verb_of(name: Seq<char>) -> Option<Verb> {
    if name == "h"@ || name == "heal"@ {
        Some(Verb::Heal)
    } else if name == "i"@ || name == "inspect"@ || name == "investigate"@ {
        Some(Verb::Investigate)
    } else if name == "k"@ || name == "kill"@ {
        Some(Verb::Kill)
    } else if name == "v"@ || name == "vote"@ {
        Some(Verb::Vote)
    } else {
        None
    }
}

/// The action of `src` that aims at `target`.
pub open spec fn act(verb: Verb, src: u64, target: u64) -> Action {
    match verb {
        Verb::Heal => Action::Night(NightAction::Heal(src, target)),
        Verb::Investigate => Action::Night(NightAction::Investigate(src, target)),
        Verb::Kill => Action::Night(NightAction::Kill(src, target)),
        Verb::Vote => Action::Vote(src, Vote::Player(target)),
    }
}

/// The players among the first `upto` names whose name is `word`.
pub open spec fn called(
    names: Seq<PlayerName>,
    players: Seq<u64>,
    word: Seq<char>,
    upto: int,
) -> Seq<u64>
    decreases upto,
{
    if upto <= 0 {
        Seq::empty()
    } else if names[upto - 1].name@ == word && players.contains(names[upto - 1].id) {
        called(names, players, word, upto - 1).push(names[upto - 1].id)
    } else {
        called(names, players, word, upto - 1)
    }
}

/// Whom the text aims at: the player whose mention it starts with, or the
/// one player whose name its first word is.
pub open spec fn target(args: Seq<char>, players: Seq<u64>, names: Seq<PlayerName>) -> Result<
    u64,
    ParseError,
> {
    match leading_user(args) {
        Some(id) => if players.contains(id) {
            Ok(id)
        } else {
            Err(ParseError::NotPlaying(id))
        },
        None => {
            let found = called(names, players, first_word(args), names.len() as int);
            if first_word(args).len() > 0 && found.len() == 1 {
                Ok(found[0])
            } else {
                Err(ParseError::Unreadable)
            }
        },
    }
}

/// The text says that nobody is to be lynched.
pub open spec fn says_no_lynch(args: Seq<char>) -> bool {
    lowered(args) == "no lynch"@ || lowered(args) == "nolynch"@ || lowered(args) == "nl"@
}

/// The game action that a message of a player of a running game stands for.
/// Nothing for a message that is no game action; an error for one that is
/// but cannot be read. `players` are the players of the sender's game.
pub open spec fn action_of(
    msg: Seq<char>,
    src: u64,
    players: Seq<u64>,
    names: Seq<PlayerName>,
) -> Option<Result<Action, ParseError>> {
    let name = command_name(msg);
    let args = command_args(msg);
    if name.len() == 0 {
        None
    } else if name == "unvote"@ {
        Some(Ok(Action::Unvote(src)))
    } else {
        match verb_of(name) {
            None => None,
            Some(verb) => if verb == Verb::Vote && args.len() == 0 {
                Some(Ok(Action::Unvote(src)))
            } else if verb == Verb::Vote && says_no_lynch(args) {
                Some(Ok(Action::Vote(src, Vote::NoLynch)))
            } else {
                Some(
                    match target(args, players, names) {
                        Ok(id) => Ok(act(verb, src, id)),
                        Err(error) => Err(error),
                    },
                )
            },
        }
    }
}

/// The game action that a message of `src` stands for.
pub open spec fn parsed(
    games: Seq<GameModel>,
    names: Seq<PlayerName>,
    src: u64,
    msg: Seq<char>,
) -> Option<Result<Action, ParseError>> {
    match playing_at(games, src) {
        None => None,
        Some(at) => action_of(msg, src, games[at as int].phase.secret_ids()->0, names),
    }
}

/// Reads at the start of the text whom an action aims at.
fn parse_player(subj: &mut &str, players: &Vec<u64>, names: &Vec<PlayerName>) -> (result: Result<
    u64,
    ParseError,
>)
    ensures
        result == target(old(subj)@, players@, names@),
{
    if let Some(user_id) = eat_user_mention(subj) {
        if contains(players, user_id) {
            Ok(user_id)
        } else {
            Err(ParseError::NotPlaying(user_id))
        }
    } else {
        if let Some(word) = next_word(subj) {
            let mut found: Vec<u64> = Vec::new();
            let mut i: usize = 0;
            while i < names.len()
                invariant
                    i <= names.len(),
                    found@ == called(names@, players@, word@, i as int),
                decreases names.len() - i,
            {
                if same_text(names[i].name.as_str(), word.as_str()) && contains(
                    players,
                    names[i].id,
                ) {
                    found.push(names[i].id);
                }
                i += 1;
            }
            match exactly_one(found) {
                Some(id) => Ok(id),
                None => Err(ParseError::Unreadable),
            }
        } else {
            Err(ParseError::Unreadable)
        }
    }
}

/// Reads a game action out of a message of `src`. Nothing is read for
/// somebody who is not a player of exactly one running game, and for a
/// message that is no game action. `names` are the names of the players of
/// the sender's game. The command `sleep` is not taken.
pub fn parse_action(registry: &Registry, names: &Vec<PlayerName>, src: u64, msg: &str) -> (result:
    Option<Result<Action, ParseError>>)
    requires
        command_name(msg@) != "sleep"@,
    ensures
        result == parsed(registry@, names@, src, msg@),
{
    let game = match registry.playing_in(src) {
        Some(game) => game,
        None => {
            return None;
        },
    };
    let players = match game.phase() {
        crate::werewolf::rules::Phase::Night { roster } => &roster.secret_ids,
        crate::werewolf::rules::Phase::Day { roster } => &roster.secret_ids,
        _ => {
            return None;
        },
    };
    let mut msg = msg;
    let n = msg.unicode_len();
    if n > 0 && msg.get_char(0) == '!' {
        let body = msg.substring_char(1, n);
        assert(body@ =~= msg@.skip(1));
        msg = body;
    }
    let cmd_name = match eat_word(&mut msg) {
        Some(word) => word,
        None => {
            return None;
        },
    };
    let cmd = cmd_name.as_str();
    if same_text(cmd, "unvote") {
        return Some(Ok(Action::Unvote(src)));
    }
    let verb = if same_text(cmd, "h") || same_text(cmd, "heal") {
        Verb::Heal
    } else if same_text(cmd, "i") || same_text(cmd, "inspect") || same_text(cmd, "investigate") {
        Verb::Investigate
    } else if same_text(cmd, "k") || same_text(cmd, "kill") {
        Verb::Kill
    } else if same_text(cmd, "v") || same_text(cmd, "vote") {
        Verb::Vote
    } else {
        return None;
    };
    if verb == Verb::Vote {
        if msg.unicode_len() == 0 {
            return Some(Ok(Action::Unvote(src)));
        }
        if same_lowered(msg, "no lynch") || same_lowered(msg, "nolynch") || same_lowered(msg, "nl") {
            return Some(Ok(Action::Vote(src, Vote::NoLynch)));
        }
    }
    Some(
        match parse_player(&mut msg, players, names) {
            Ok(tgt) => Ok(
                match verb {
                    Verb::Heal => Action::Night(NightAction::Heal(src, tgt)),
                    Verb::Investigate => Action::Night(NightAction::Investigate(src, tgt)),
                    Verb::Kill => Action::Night(NightAction::Kill(src, tgt)),
                    Verb::Vote => Action::Vote(src, Vote::Player(tgt)),
                },
            ),
            Err(error) => Err(error),
        },
    )
}

} // verus!
