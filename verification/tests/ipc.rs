use peter::ipc::{command_line, command_of, done, has_enough, reply_of, IpcCommand, IpcError, IpcSession, Line};

fn words(list: &[&str]) -> Vec<String> {
    list.iter().map(|word| word.to_string()).collect()
}

#[test]
fn command_line_quotes_each_word() {
    assert_eq!(command_line(&words(&["msg", "123", "hello world"])), "msg 123 'hello world'");
    assert_eq!(command_line(&words(&["quit"])), "quit");
    assert_eq!(command_line(&words(&[])), "");
    assert_eq!(command_line(&words(&["a", ""])), "a ''");
}

#[test]
fn reply_of_strips_the_newline() {
    assert_eq!(reply_of("role added\n"), Ok("role added".to_string()));
    assert_eq!(reply_of("\n"), Ok(String::new()));
    assert_eq!(reply_of("role added"), Err(IpcError::MissingNewline));
    assert_eq!(reply_of(""), Err(IpcError::MissingNewline));
    assert_eq!(reply_of("a\nb\n"), Ok("a\nb".to_string()));
}

#[test]
fn commands_are_read_from_their_words() {
    assert_eq!(
        command_of(&words(&["add-role", "86841168427495424", "355776689051140099"])),
        Ok(IpcCommand::AddRole { user: 86841168427495424, role: 355776689051140099 })
    );
    assert_eq!(
        command_of(&words(&["channel-msg", "5", "hi there"])),
        Ok(IpcCommand::ChannelMsg { channel: 5, msg: "hi there".to_string() })
    );
    assert_eq!(
        command_of(&words(&["msg", "6", "psst"])),
        Ok(IpcCommand::Msg { rcpt: 6, msg: "psst".to_string() })
    );
    assert_eq!(command_of(&words(&["quit"])), Ok(IpcCommand::Quit));
    assert_eq!(command_of(&words(&["quit", "now"])), Ok(IpcCommand::Quit));
    assert_eq!(
        command_of(&words(&["set-display-name", "7", "Peter"])),
        Ok(IpcCommand::SetDisplayName { user: 7, name: "Peter".to_string() })
    );
}

#[test]
fn flaws_of_commands_are_reported() {
    assert_eq!(command_of(&words(&["add-role", "x", "5"])), Err(IpcError::UserId));
    assert_eq!(command_of(&words(&["add-role", "5", "x"])), Err(IpcError::RoleId));
    assert_eq!(command_of(&words(&["add-role", "0", "5"])), Err(IpcError::UserId));
    assert_eq!(command_of(&words(&["channel-msg", "-1", "x"])), Err(IpcError::ChannelId));
    assert_eq!(command_of(&words(&["msg", "", "x"])), Err(IpcError::UserId));
    assert_eq!(command_of(&words(&["set-display-name", "1.5", "x"])), Err(IpcError::UserId));
    assert_eq!(
        command_of(&words(&["dance", "now"])),
        Err(IpcError::UnknownCommand(words(&["dance", "now"])))
    );
}

#[test]
fn has_enough_counts_the_words_that_a_command_reads() {
    assert!(!has_enough(&words(&[])));
    assert!(has_enough(&words(&["quit"])));
    assert!(has_enough(&words(&["dance"])));
    assert!(!has_enough(&words(&["msg"])));
    assert!(!has_enough(&words(&["msg", "1"])));
    assert!(has_enough(&words(&["msg", "1", "x"])));
    assert!(!has_enough(&words(&["add-role", "1"])));
    assert!(!has_enough(&words(&["channel-msg", "1"])));
    assert!(!has_enough(&words(&["set-display-name"])));
}

#[test]
fn a_session_reads_one_command_from_each_line() {
    let mut session = IpcSession::new();
    assert_eq!(session.feed("quit"), Line::Complete(Ok(IpcCommand::Quit)));
    assert_eq!(
        session.feed("msg 5 'hello world'"),
        Line::Complete(Ok(IpcCommand::Msg { rcpt: 5, msg: "hello world".to_string() }))
    );
    assert_eq!(session.feed("msg 5"), Line::Short(words(&["msg", "5"])));
    assert_eq!(session.feed(""), Line::Short(vec![]));
    assert_eq!(
        session.feed("dance"),
        Line::Complete(Err(IpcError::UnknownCommand(words(&["dance"]))))
    );
    assert_eq!(session.finish(), Ok(()));
}

#[test]
fn a_command_can_go_on_in_the_next_line() {
    let mut session = IpcSession::new();
    assert_eq!(session.feed("msg 5 'hello"), Line::Open);
    assert_eq!(
        session.feed("world'"),
        Line::Complete(Ok(IpcCommand::Msg { rcpt: 5, msg: "hello\nworld".to_string() }))
    );
    assert_eq!(session.finish(), Ok(()));
}

#[test]
fn a_command_that_is_left_open_is_an_error_at_the_end() {
    let mut session = IpcSession::new();
    assert_eq!(session.feed("msg 5 \"hello"), Line::Open);
    assert_eq!(session.feed("still open"), Line::Open);
    assert_eq!(
        session.finish(),
        Err(IpcError::Shlex("msg 5 \"hello\nstill open\n".to_string()))
    );
}

#[test]
fn every_command_has_its_answer() {
    assert_eq!(done(&IpcCommand::AddRole { user: 1, role: 2 }), "role added");
    assert_eq!(done(&IpcCommand::ChannelMsg { channel: 1, msg: String::new() }), "message sent");
    assert_eq!(done(&IpcCommand::Msg { rcpt: 1, msg: String::new() }), "message sent");
    assert_eq!(done(&IpcCommand::Quit), "shutdown complete");
    assert_eq!(
        done(&IpcCommand::SetDisplayName { user: 1, name: String::new() }),
        "display name set"
    );
}
