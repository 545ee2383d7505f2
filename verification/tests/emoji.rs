use peter::emoji::{message_part_next_emoji, Iter, MessagePart, Reaction};

fn unicode(text: &str) -> MessagePart {
    MessagePart::UnicodeEmoji(text.to_string())
}

fn custom(id: u64, name: &str) -> MessagePart {
    MessagePart::CustomEmoji { animated: false, id, name: name.to_string() }
}

fn message() -> MessagePart {
    MessagePart::Nested(vec![
        MessagePart::Empty,
        unicode("👍"),
        MessagePart::Nested(vec![
            MessagePart::Nested(vec![]),
            custom(7, "wolf"),
            MessagePart::Empty,
            MessagePart::Nested(vec![unicode("🐺"), unicode("🌙")]),
        ]),
        MessagePart::Empty,
        custom(8, "moon"),
    ])
}

#[test]
fn emoji_come_in_the_order_of_the_message() {
    let found: Vec<Reaction> = {
        let mut iter = Iter::new(message());
        let mut found = Vec::new();
        while let Some(emoji) = iter.next() {
            found.push(emoji);
        }
        assert_eq!(iter.next(), None);
        found
    };
    assert_eq!(
        found,
        vec![
            Reaction::Unicode("👍".to_string()),
            Reaction::Custom { animated: false, id: 7, name: "wolf".to_string() },
            Reaction::Unicode("🐺".to_string()),
            Reaction::Unicode("🌙".to_string()),
            Reaction::Custom { animated: false, id: 8, name: "moon".to_string() },
        ]
    );
}

#[test]
fn a_message_without_emoji_has_none() {
    assert_eq!(Iter::new(MessagePart::Empty).next(), None);
    assert_eq!(Iter::new(MessagePart::Nested(vec![])).next(), None);
    let mut nested = MessagePart::Nested(vec![MessagePart::Empty, MessagePart::Nested(vec![])]);
    assert_eq!(message_part_next_emoji(&mut nested), None);
}

#[test]
fn a_single_emoji_is_taken_out_of_its_part() {
    let mut part = unicode("✅");
    assert_eq!(message_part_next_emoji(&mut part), Some(Reaction::Unicode("✅".to_string())));
    assert!(matches!(part, MessagePart::Empty));
    assert_eq!(message_part_next_emoji(&mut part), None);
    let mut animated = MessagePart::CustomEmoji { animated: true, id: 3, name: "x".to_string() };
    assert_eq!(
        message_part_next_emoji(&mut animated),
        Some(Reaction::Custom { animated: true, id: 3, name: "x".to_string() })
    );
}
