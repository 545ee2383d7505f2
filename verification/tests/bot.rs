use peter::commands::{
    iam, iamn, nth_letter, ping, pingception, poll, reset_quiz, team, teams, Reactions,
    RoleReply, ADMIN, FENHL, GEFOLGE, GUEST, MENSCH, QUIZMASTER,
};
use peter::voice::{notify_start, voice_state_update, VoiceMember, VoiceStates, BIBLIOTHEK};

#[test]
fn the_ids_of_the_group_are_known() {
    assert_eq!(GEFOLGE, 355761290809180170);
    assert_eq!(ADMIN, 355776689051140099);
    assert_eq!(QUIZMASTER, 847443327069454378);
    assert_eq!(MENSCH, 386753710434287626);
    assert_eq!(GUEST, 784929665478557737);
    assert_eq!(FENHL, 86841168427495424);
    assert_eq!(BIBLIOTHEK, 401654567819018252);
}

#[test]
fn a_team_change_drops_the_other_teams() {
    let change = team(3);
    assert_eq!(change.add, 828431624759935016);
    assert_eq!(
        change.remove,
        vec![
            828431321586991104,
            828431500747735100,
            828431736194072606,
            828431741332750407,
            828431913738960956
        ]
    );
    assert_eq!(change.reply, "du bist jetzt in Team 3");
    assert_eq!(team(1).add, teams()[0]);
    assert_eq!(team(6).add, teams()[5]);
    assert_eq!(team(6).remove, teams()[..5].to_vec());
}

#[test]
fn the_end_of_a_quiz_takes_seven_roles() {
    let roles = reset_quiz();
    assert_eq!(roles.len(), 7);
    assert_eq!(roles[0], QUIZMASTER);
    assert_eq!(roles[1..], teams()[..]);
}

#[test]
fn roles_are_given_and_taken_on_request() {
    assert_eq!(iam(false, false), RoleReply::NotSelfAssignable);
    assert_eq!(iam(false, true), RoleReply::NotSelfAssignable);
    assert_eq!(iam(true, true), RoleReply::AlreadyHeld);
    assert_eq!(iam(true, false), RoleReply::Done);
    assert_eq!(iamn(false, true), RoleReply::NotSelfAssignable);
    assert_eq!(iamn(true, false), RoleReply::NotHeld);
    assert_eq!(iamn(true, true), RoleReply::Done);
    assert_eq!(RoleReply::NotSelfAssignable.message(), "diese Rolle ist nicht selbstzuweisbar");
    assert_eq!(RoleReply::AlreadyHeld.message(), "du hast diese Rolle schon");
    assert_eq!(RoleReply::NotHeld.message(), "du hast diese Rolle sowieso nicht");
    assert_eq!(RoleReply::Done.message(), "✅");
}

#[test]
fn ping_answers_pong_or_growls() {
    assert_eq!(ping(false), "pong");
    assert_eq!(pingception(3, 1), "BWORRRNG");
    assert_eq!(pingception(0, 0), "BWOG");
    for _ in 0..50 {
        let growl = ping(true);
        assert!(growl.starts_with("BWORRR"));
        assert!(growl.ends_with("NG"));
        let rs = growl.chars().filter(|c| *c == 'R').count();
        let ns = growl.chars().filter(|c| *c == 'N').count();
        assert!((3..20).contains(&rs));
        assert!((1..5).contains(&ns));
        assert_eq!(growl.chars().count(), 4 + rs + ns);
    }
}

#[test]
fn letters_are_regional_indicators() {
    assert_eq!(nth_letter(0), '🇦');
    assert_eq!(nth_letter(1), '🇧');
    assert_eq!(nth_letter(25), '🇿');
    for n in 0..26u8 {
        assert_eq!(nth_letter(n) as u32, '🇦' as u32 + n as u32);
    }
}

#[test]
fn a_poll_offers_emoji_letters_or_thumbs() {
    assert_eq!(poll(true, Some(3)), Reactions::Given);
    assert_eq!(poll(true, None), Reactions::Given);
    assert_eq!(poll(false, Some(3)), Reactions::Letters(vec!['🇦', '🇧', '🇨']));
    assert_eq!(poll(false, Some(0)), Reactions::Letters(vec![]));
    assert_eq!(poll(false, None), Reactions::Letters(vec!['👍', '👎']));
    match poll(false, Some(200)) {
        Reactions::Letters(letters) => {
            assert_eq!(letters.len(), 26);
            assert_eq!(letters[25], '🇿');
        }
        other => panic!("unexpected: {:?}", other),
    }
}

fn member(id: u64, name: &str, discriminator: u16) -> VoiceMember {
    VoiceMember { id, name: name.to_string(), discriminator }
}

fn picture(states: &VoiceStates) -> Vec<(u64, String, Vec<u64>)> {
    states
        .channels()
        .iter()
        .map(|c| (c.id, c.name.clone(), c.members.iter().map(|m| m.id).collect()))
        .collect()
}

#[test]
fn the_first_to_come_is_worth_a_notice() {
    let mut states = VoiceStates::new();
    assert!(states.is_quiet(BIBLIOTHEK));
    assert!(voice_state_update(&mut states, member(1, "bob", 1), Some((50, "Lounge".to_string()))));
    assert!(!states.is_quiet(BIBLIOTHEK));
    assert!(!voice_state_update(&mut states, member(2, "anna", 2), Some((50, "other".to_string()))));
    assert_eq!(picture(&states), vec![(50, "Lounge".to_string(), vec![2, 1])]);
}

#[test]
fn the_library_does_not_count() {
    let mut states = VoiceStates::new();
    assert!(!voice_state_update(
        &mut states,
        member(1, "bob", 1),
        Some((BIBLIOTHEK, "Bibliothek".to_string()))
    ));
    assert!(states.is_quiet(BIBLIOTHEK));
    assert!(!states.is_quiet(0));
    assert!(voice_state_update(&mut states, member(2, "eve", 1), Some((7, "Flur".to_string()))));
    assert_eq!(
        picture(&states),
        vec![(7, "Flur".to_string(), vec![2]), (BIBLIOTHEK, "Bibliothek".to_string(), vec![1])]
    );
}

#[test]
fn who_moves_leaves_the_old_channel() {
    let mut states = VoiceStates::new();
    voice_state_update(&mut states, member(1, "bob", 1), Some((50, "Lounge".to_string())));
    voice_state_update(&mut states, member(2, "anna", 2), Some((50, "Lounge".to_string())));
    assert!(!voice_state_update(&mut states, member(1, "bob", 1), Some((40, "Keller".to_string()))));
    assert_eq!(
        picture(&states),
        vec![(40, "Keller".to_string(), vec![1]), (50, "Lounge".to_string(), vec![2])]
    );
    assert!(!voice_state_update(&mut states, member(2, "anna", 2), None));
    assert_eq!(picture(&states), vec![(40, "Keller".to_string(), vec![1])]);
    assert!(!voice_state_update(&mut states, member(1, "bob", 1), None));
    assert_eq!(picture(&states), vec![]);
    assert!(states.is_quiet(BIBLIOTHEK));
}

#[test]
fn members_are_listed_by_name_and_discriminator() {
    let mut states = VoiceStates::new();
    for (id, name, disc) in [(1, "bob", 7), (2, "anna", 9), (3, "bob", 3), (4, "bo", 1), (5, "zoe", 0), (6, "Bob", 5)] {
        voice_state_update(&mut states, member(id, name, disc), Some((50, "Lounge".to_string())));
    }
    assert_eq!(picture(&states), vec![(50, "Lounge".to_string(), vec![6, 2, 4, 3, 1, 5])]);
}

#[test]
fn who_is_listed_in_the_same_place_is_replaced() {
    let mut states = VoiceStates::new();
    voice_state_update(&mut states, member(1, "bob", 7), Some((50, "Lounge".to_string())));
    voice_state_update(&mut states, member(9, "bob", 7), Some((50, "Lounge".to_string())));
    assert_eq!(picture(&states), vec![(50, "Lounge".to_string(), vec![9])]);
}

#[test]
fn the_notice_mentions_the_member_and_the_channel() {
    assert_eq!(notify_start(5, 50), "Discord Party? <@5> ist jetzt im voice channel <#50>");
}
