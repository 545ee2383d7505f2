//! The commands that other programs send to the bot, one line each, and
//! the lines that it answers with.

use crate::discord::{parse_snowflake, snowflake_id};
use crate::text::{same_text, views};
use vstd::prelude::*;

verus! {

/// The word as `shlex::quote` writes it for a shell.
pub uninterp spec fn shell_quoted(word: Seq<char>) -> Seq<char>;

/// The words that `shlex::split` reads from a line, where it can read it.
pub uninterp spec fn shell_words(line: Seq<char>) -> Option<Seq<Seq<char>>>;

/// Calls `shlex::quote`, which writes a word so that a shell reads it as
/// one argument. Taken on trust: the result depends on `word` alone.
#[verifier::external_body]
#[allow(deprecated)]
pub(crate) fn quote(word: &str) -> (out: String)
    ensures
        out@ == shell_quoted(word@),
{
    shlex::quote(word).into_owned()
}

/// What the words hold, where there are words.
pub open spec fn word_views(words: Option<Vec<String>>) -> Option<Seq<Seq<char>>> {
    match words {
        Some(words) => Some(views(words@)),
        None => None,
    }
}

/// Calls `shlex::split`, which reads a line as a shell does and hands back
/// its words, or nothing where a quote or an escape is left open. Taken on
/// trust: the result depends on `line` alone.
#[verifier::external_body]
pub(crate) fn split(line: &str) -> (words: Option<Vec<String>>)
    ensures
        word_views(words) == shell_words(line@),
{
    shlex::split(line)
}

/// The line that sends a command: its words, each written for a shell,
/// with a blank between them.
pub open spec fn command_line_text(args: Seq<Seq<char>>) -> Seq<char>
    decreases args.len(),
{
    if args.len() == 0 {
        Seq::empty()
    } else if args.len() == 1 {
        shell_quoted(args[0])
    } else {
        command_line_text(args.drop_last()) + " "@ + shell_quoted(args.last())
    }
}

/// The line that sends a command: its words, each written for a shell,
/// with a blank between them.
pub fn command_line(args: &Vec<String>) -> (line: String)
    ensures
        line@ == command_line_text(views(args@)),
{
    let mut line = String::new();
    let mut i: usize = 0;
    let ghost all = views(args@);
    assert(all.take(0) =~= Seq::<Seq<char>>::empty());
    while i < args.len()
        invariant
            i <= args.len(),
            all == views(args@),
            line@ == command_line_text(all.take(i as int)),
        decreases args.len() - i,
    {
        if i > 0 {
            line.append(" ");
        }
        let word = quote(args[i].as_str());
        line.append(word.as_str());
        proof {
            assert(all.take(i as int + 1).drop_last() =~= all.take(i as int));
            assert(all.take(i as int + 1).last() == args@[i as int]@);
            if i == 0 {
                assert(line@ =~= shell_quoted(all[0]));
            }
        }
        i += 1;
    }
    assert(all.take(i as int) =~= all);
    line
}

/// Something is wrong with a command or with its answer.
#[derive(Debug, Clone, PartialEq, Eq)]
pub enum IpcError {
    /// The answer to a command did not end in a newline.
    MissingNewline,
    /// The line could not be read as the words of a command.
    Shlex(String),
    /// The first word is no command.
    UnknownCommand(Vec<String>),
    /// The word that should be the id of a user is none.
    UserId,
    /// The word that should be the id of a role is none.
    RoleId,
    /// The word that should be the id of a channel is none.
    ChannelId,
}

/// The answer to a command without the newline that ends it.
pub open spec fn answer(line: Seq<char>) -> Option<Seq<char>> {
    if line.len() > 0 && line.last() == '\n' {
        Some(line.drop_last())
    } else {
        None
    }
}

/// The answer to a command without the newline that ends it. An answer
/// that does not end in a newline is an error.
pub fn reply_of(line: &str) -> (result: Result<String, IpcError>)
    ensures
        match result {
            Ok(text) => answer(line@) == Some(text@),
            Err(error) => answer(line@) is None && error == IpcError::MissingNewline,
        },
{
    let n = line.unicode_len();
    if n > 0 && line.get_char(n - 1) == '\n' {
        let text = line.substring_char(0, n - 1);
        let mut out = String::new();
        out.append(text);
        assert(out@ =~= line@.drop_last());
        Ok(out)
    } else {
        Err(IpcError::MissingNewline)
    }
}

/// What the bot is told to do.
#[derive(Debug, Clone, PartialEq, Eq)]
pub enum IpcCommand {
    /// Give the user the role.
    AddRole { user: u64, role: u64 },
    /// Say the text in the channel.
    ChannelMsg { channel: u64, msg: String },
    /// Tell the user the text in private.
    Msg { rcpt: u64, msg: String },
    /// Shut down.
    Quit,
    /// Show the user under this name.
    SetDisplayName { user: u64, name: String },
}

/// What the bot is told to do, as a mathematical value.
pub enum IpcCommandModel {
    AddRole { user: u64, role: u64 },
    ChannelMsg { channel: u64, msg: Seq<char> },
    Msg { rcpt: u64, msg: Seq<char> },
    Quit,
    SetDisplayName { user: u64, name: Seq<char> },
}

impl View for IpcCommand {
    type V = IpcCommandModel;

    open spec fn view(&self) -> IpcCommandModel {
        match *self {
            IpcCommand::AddRole { user, role } => IpcCommandModel::AddRole { user, role },
            IpcCommand::ChannelMsg { channel, msg } => IpcCommandModel::ChannelMsg {
                channel,
                msg: msg@,
            },
            IpcCommand::Msg { rcpt, msg } => IpcCommandModel::Msg { rcpt, msg: msg@ },
            IpcCommand::Quit => IpcCommandModel::Quit,
            IpcCommand::SetDisplayName { user, name } => IpcCommandModel::SetDisplayName {
                user,
                name: name@,
            },
        }
    }
}

/// What is wrong with the words of a command.
pub enum Flaw {
    Unknown,
    UserId,
    RoleId,
    ChannelId,
}

/// The command takes a target and a value behind its name.
pub open spec fn takes_two(name: Seq<char>) -> bool {
    name == "add-role"@ || name == "channel-msg"@ || name == "msg"@ || name
        == "set-display-name"@
}

/// The words are as many as their command reads: its name, and for all
/// commands but `quit` two more.
pub open spec fn enough(args: Seq<Seq<char>>) -> bool {
    args.len() >= 1 && (takes_two(args[0]) ==> args.len() >= 3)
}

/// The command that the words stand for, or what is wrong with them.
pub open spec fn command(args: Seq<Seq<char>>) -> Result<IpcCommandModel, Flaw> {
    if args[0] == "add-role"@ {
        if snowflake_id(args[1]) is None {
            Err(Flaw::UserId)
        } else if snowflake_id(args[2]) is None {
            Err(Flaw::RoleId)
        } else {
            Ok(
                IpcCommandModel::AddRole {
                    user: snowflake_id(args[1])->0,
                    role: snowflake_id(args[2])->0,
                },
            )
        }
    } else if args[0] == "channel-msg"@ {
        match snowflake_id(args[1]) {
            Some(channel) => Ok(IpcCommandModel::ChannelMsg { channel, msg: args[2] }),
            None => Err(Flaw::ChannelId),
        }
    } else if args[0] == "msg"@ {
        match snowflake_id(args[1]) {
            Some(rcpt) => Ok(IpcCommandModel::Msg { rcpt, msg: args[2] }),
            None => Err(Flaw::UserId),
        }
    } else if args[0] == "quit"@ {
        Ok(IpcCommandModel::Quit)
    } else if args[0] == "set-display-name"@ {
        match snowflake_id(args[1]) {
            Some(user) => Ok(IpcCommandModel::SetDisplayName { user, name: args[2] }),
            None => Err(Flaw::UserId),
        }
    } else {
        Err(Flaw::Unknown)
    }
}

/// The error says what is wrong with the words.
pub open spec fn reports(error: IpcError, flaw: Flaw, args: Seq<Seq<char>>) -> bool {
    match flaw {
        Flaw::Unknown => (error matches IpcError::UnknownCommand(words) && views(words@) == args),
        Flaw::UserId => error == IpcError::UserId,
        Flaw::RoleId => error == IpcError::RoleId,
        Flaw::ChannelId => error == IpcError::ChannelId,
    }
}

fn copy_text(text: &String) -> (out: String)
    ensures
        out@ == text@,
{
    let mut out = String::new();
    out.append(text.as_str());
    assert(out@ =~= text@);
    out
}

fn copy_words(words: &Vec<String>) -> (out: Vec<String>)
    ensures
        views(out@) == views(words@),
{
    let mut out: Vec<String> = Vec::new();
    let mut i: usize = 0;
    while i < words.len()
        invariant
            i <= words.len(),
            out@.len() == i,
            forall|k: int| 0 <= k < i ==> (#[trigger] out@[k])@ == words@[k]@,
        decreases words.len() - i,
    {
        out.push(copy_text(&words[i]));
        i += 1;
    }
    assert(views(out@) =~= views(words@));
    out
}

/// Reads the words of a command. The words have to be as many as the
/// command reads.
pub fn command_of(args: &Vec<String>) -> (result: Result<IpcCommand, IpcError>)
    requires
        enough(views(args@)),
    ensures
        match result {
            Ok(found) => command(views(args@)) == Ok::<IpcCommandModel, Flaw>(found@),
            Err(error) => command(views(args@)) is Err && reports(
                error,
                command(views(args@))->Err_0,
                views(args@),
            ),
        },
{
    let ghost all = views(args@);
    assert(all[0] == args@[0]@);
    let name = args[0].as_str();
    if same_text(name, "add-role") {
        assert(all[1] == args@[1]@ && all[2] == args@[2]@);
        let user = match parse_snowflake(args[1].as_str()) {
            Some(user) => user,
            None => {
                return Err(IpcError::UserId);
            },
        };
        let role = match parse_snowflake(args[2].as_str()) {
            Some(role) => role,
            None => {
                return Err(IpcError::RoleId);
            },
        };
        Ok(IpcCommand::AddRole { user, role })
    } else if same_text(name, "channel-msg") {
        assert(all[1] == args@[1]@ && all[2] == args@[2]@);
        match parse_snowflake(args[1].as_str()) {
            Some(channel) => Ok(IpcCommand::ChannelMsg { channel, msg: copy_text(&args[2]) }),
            None => Err(IpcError::ChannelId),
        }
    } else if same_text(name, "msg") {
        assert(all[1] == args@[1]@ && all[2] == args@[2]@);
        match parse_snowflake(args[1].as_str()) {
            Some(rcpt) => Ok(IpcCommand::Msg { rcpt, msg: copy_text(&args[2]) }),
            None => Err(IpcError::UserId),
        }
    } else if same_text(name, "quit") {
        Ok(IpcCommand::Quit)
    } else if same_text(name, "set-display-name") {
        assert(all[1] == args@[1]@ && all[2] == args@[2]@);
        match parse_snowflake(args[1].as_str()) {
            Some(user) => Ok(IpcCommand::SetDisplayName { user, name: copy_text(&args[2]) }),
            None => Err(IpcError::UserId),
        }
    } else {
        Err(IpcError::UnknownCommand(copy_words(args)))
    }
}

/// Whether the words are as many as their command reads.
pub fn has_enough(args: &Vec<String>) -> (ok: bool)
    ensures
        ok == enough(views(args@)),
{
    if args.len() == 0 {
        return false;
    }
    assert(views(args@)[0] == args@[0]@);
    let name = args[0].as_str();
    let two = same_text(name, "add-role") || same_text(name, "channel-msg") || same_text(
        name,
        "msg",
    ) || same_text(name, "set-display-name");
    !two || args.len() >= 3
}

/// What a client has sent so far on one connection.
#[derive(Debug)]
pub struct IpcSession {
    buf: String,
    failed: bool,
}

/// What a line of a client means.
#[derive(Debug, PartialEq, Eq)]
pub enum Line {
    /// The line leaves a quote or an escape open: the command goes on in
    /// the next line.
    Open,
    /// The words are too few for their command.
    Short(Vec<String>),
    /// A command, or what is wrong with it.
    Complete(Result<IpcCommand, IpcError>),
}

impl IpcSession {
    /// What was sent and is not yet a whole command.
    pub closed spec fn pending(&self) -> Seq<char> {
        self.buf@
    }

    /// The last line left its command open.
    pub closed spec fn open(&self) -> bool {
        self.failed
    }

    /// A connection on which nothing was sent yet.
    pub fn new() -> (session: IpcSession)
        ensures
            session.pending() == Seq::<char>::empty(),
            !session.open(),
    {
        IpcSession { buf: String::new(), failed: false }
    }

    /// Takes the next line of the client. The line joins what is pending.
    /// Where that can be read as words, nothing is pending any more and the
    /// words are read as a command. Where it cannot, it stays pending with
    /// a newline behind it.
    pub fn feed(&mut self, line: &str) -> (result: Line)
        ensures
            match shell_words(old(self).pending() + line@) {
                None => result == Line::Open && final(self).open() && final(self).pending() == old(
                    self,
                ).pending() + line@ + "\n"@,
                Some(args) => !final(self).open() && final(self).pending().len() == 0 && (if enough(
                    args,
                ) {
                    match result {
                        Line::Complete(Ok(found)) => command(args) == Ok::<
                            IpcCommandModel,
                            Flaw,
                        >(found@),
                        Line::Complete(Err(error)) => command(args) is Err && reports(
                            error,
                            command(args)->Err_0,
                            args,
                        ),
                        _ => false,
                    }
                } else {
                    (result matches Line::Short(words) && views(words@) == args)
                }),
            },
    {
        self.buf.append(line);
        match split(self.buf.as_str()) {
            Some(args) => {
                self.failed = false;
                self.buf = String::new();
                if has_enough(&args) {
                    Line::Complete(command_of(&args))
                } else {
                    Line::Short(args)
                }
            },
            None => {
                self.failed = true;
                self.buf.append("\n");
                Line::Open
            },
        }
    }

    /// Ends the connection: a command that was left open is an error, which
    /// holds the lines that were not read.
    pub fn finish(self) -> (result: Result<(), IpcError>)
        ensures
            match result {
                Ok(()) => !self.open(),
                Err(error) => self.open() && (error matches IpcError::Shlex(text) && text@
                    == self.pending()),
            },
    {
        if self.failed {
            Err(IpcError::Shlex(self.buf))
        } else {
            Ok(())
        }
    }
}

/// What the client is answered when a command was carried out.
pub open spec fn done_text(command: IpcCommandModel) -> Seq<char> {
    match command {
        IpcCommandModel::AddRole { .. } => "role added"@,
        IpcCommandModel::ChannelMsg { .. } => "message sent"@,
        IpcCommandModel::Msg { .. } => "message sent"@,
        IpcCommandModel::Quit => "shutdown complete"@,
        IpcCommandModel::SetDisplayName { .. } => "display name set"@,
    }
}

/// What the client is answered when a command was carried out.
pub fn done(command: &IpcCommand) -> (text: &'static str)
    ensures
        text@ == done_text(command@),
{
    match command {
        IpcCommand::AddRole { .. } => "role added",
        IpcCommand::ChannelMsg { .. } => "message sent",
        IpcCommand::Msg { .. } => "message sent",
        IpcCommand::Quit => "shutdown complete",
        IpcCommand::SetDisplayName { .. } => "display name set",
    }
}

} // verus!
