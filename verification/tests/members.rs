use peter::twitch::{alert, newly_live, next_wait, streamer_of, worth_notifying, Streamer, CALM_SECS, POLL_SECS};
use peter::user_list::{
    discord_opt_discriminator, ids_of_lines, Discriminator, InvalidDiscriminator,
    SerdeDiscriminator,
};

fn text(s: &str) -> SerdeDiscriminator {
    SerdeDiscriminator::Text(s.to_string())
}

#[test]
fn a_discriminator_is_a_number_up_to_9999() {
    assert_eq!(Discriminator::try_from(SerdeDiscriminator::Number(0)).map(|d| d.get()), Ok(0));
    assert_eq!(Discriminator::try_from(SerdeDiscriminator::Number(9999)).map(|d| d.get()), Ok(9999));
    assert_eq!(
        Discriminator::try_from(SerdeDiscriminator::Number(10000)),
        Err(InvalidDiscriminator::Range(10000))
    );
    assert_eq!(
        Discriminator::try_from(SerdeDiscriminator::Number(i16::MAX)),
        Err(InvalidDiscriminator::Range(i16::MAX))
    );
    assert_eq!(Discriminator::try_from(SerdeDiscriminator::Number(-5)).map(|d| d.get()), Ok(-5));
}

#[test]
fn a_discriminator_is_read_from_four_digits() {
    assert_eq!(Discriminator::try_from(text("0042")).map(|d| d.get()), Ok(42));
    assert_eq!(Discriminator::try_from(text("9999")).map(|d| d.get()), Ok(9999));
    assert_eq!(Discriminator::try_from(text("0000")).map(|d| d.get()), Ok(0));
    for bad in ["42", "00042", "12a4", "", "+123", "１２３４", "1234\n"] {
        assert_eq!(Discriminator::try_from(text(bad)), Err(InvalidDiscriminator::StringPattern));
    }
}

#[test]
fn a_discriminator_is_written_with_four_digits() {
    for (n, expected) in [(0, "0000"), (7, "0007"), (42, "0042"), (123, "0123"), (9999, "9999"), (-5, "-005"), (-42, "-042"), (-123, "-123"), (-1234, "-1234"), (i16::MIN, "-32768")] {
        let disc = Discriminator::try_from(SerdeDiscriminator::Number(n)).unwrap();
        assert_eq!(disc.to_string(), expected);
        assert_eq!(disc.to_string(), format!("{:04}", n));
    }
}

#[test]
fn zero_means_no_discriminator() {
    assert_eq!(discord_opt_discriminator(SerdeDiscriminator::Number(0)), Ok(None));
    assert_eq!(discord_opt_discriminator(text("0")), Ok(None));
    assert_eq!(
        discord_opt_discriminator(text("0000")).map(|d| d.map(|d| d.get())),
        Ok(Some(0))
    );
    assert_eq!(
        discord_opt_discriminator(SerdeDiscriminator::Number(17)).map(|d| d.map(|d| d.get())),
        Ok(Some(17))
    );
    assert_eq!(discord_opt_discriminator(text("00")), Err(InvalidDiscriminator::StringPattern));
    assert_eq!(
        discord_opt_discriminator(SerdeDiscriminator::Number(10000)),
        Err(InvalidDiscriminator::Range(10000))
    );
}

#[test]
fn the_list_holds_each_id_once_in_ascending_order() {
    assert_eq!(peter::user_list::set(&vec![5, 3, 5, 1, 3, 3]), vec![1, 3, 5]);
    assert_eq!(peter::user_list::set(&vec![]), Vec::<u64>::new());
    assert_eq!(peter::user_list::set(&vec![2, 2]), vec![2]);
}

#[test]
fn a_member_is_added_once() {
    assert_eq!(peter::user_list::add(&vec![1, 2, 3], 4), Some(4));
    assert_eq!(peter::user_list::add(&vec![1, 2, 3], 2), None);
    assert_eq!(peter::user_list::add(&vec![], 2), Some(2));
}

#[test]
fn a_member_who_leaves_is_listed_no_more() {
    assert_eq!(peter::user_list::remove(&vec![3, 1, 2, 1], 1), Some(vec![2, 3]));
    assert_eq!(peter::user_list::remove(&vec![3, 1, 2], 4), None);
    assert_eq!(peter::user_list::remove(&vec![1], 1), Some(vec![]));
}

#[test]
fn the_list_is_read_line_by_line() {
    let lines: Vec<String> = ["86841168427495424", "5"].iter().map(|s| s.to_string()).collect();
    assert_eq!(ids_of_lines(&lines), Some(vec![86841168427495424, 5]));
    let bad: Vec<String> = ["5", "five", "6"].iter().map(|s| s.to_string()).collect();
    assert_eq!(ids_of_lines(&bad), None);
    assert_eq!(ids_of_lines(&vec![]), Some(vec![]));
}

#[test]
fn only_new_streams_are_announced() {
    assert_eq!(newly_live(&vec![1, 2], &vec![2, 3, 1, 4]), vec![3, 4]);
    assert_eq!(newly_live(&vec![], &vec![7]), vec![7]);
    assert_eq!(newly_live(&vec![7], &vec![]), Vec::<u64>::new());
}

#[test]
fn the_alert_mentions_the_member_and_the_role() {
    assert_eq!(alert(5, 668534306515320833), "<@5> streamt jetzt auf <@&668534306515320833>");
}

#[test]
fn a_stream_belongs_to_the_one_member_with_its_channel() {
    let users = vec![
        Streamer { discord: 1, twitch: "a".to_string() },
        Streamer { discord: 2, twitch: "b".to_string() },
        Streamer { discord: 3, twitch: "b".to_string() },
    ];
    assert_eq!(streamer_of(&users, "a"), Some(1));
    assert_eq!(streamer_of(&users, "b"), None);
    assert_eq!(streamer_of(&users, "c"), None);
}

#[test]
fn the_wait_doubles_until_a_calm_day() {
    assert_eq!(POLL_SECS, 60);
    assert_eq!(CALM_SECS, 86400);
    assert_eq!(next_wait(0, 1), 2);
    assert_eq!(next_wait(86399, 8), 16);
    assert_eq!(next_wait(86400, 8), 1);
    assert!(worth_notifying(2));
    assert!(!worth_notifying(1));
}
