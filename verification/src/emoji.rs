//! Some utilities for working with emoji (both Unicode and custom) and
//! message reactions.

use vstd::prelude::*;

verus! {

/// What a message can be reacted with.
#[derive(Debug, Clone, PartialEq, Eq)]
pub enum Reaction {
    /// An emoji of a group.
    Custom { animated: bool, id: u64, name: String },
    /// An emoji of Unicode.
    Unicode(String),
}

/// A message as its parser hands it over, as far as emoji go: every part
/// that is neither an emoji nor made of parts counts as empty.
#[derive(Debug)]
pub enum MessagePart {
    Empty,
    Nested(Vec<MessagePart>),
    CustomEmoji { animated: bool, id: u64, name: String },
    UnicodeEmoji(String),
}

/// The emoji of a part of a message, in the order in which they stand in
/// it.
pub open spec fn emojis(part: MessagePart) -> Seq<Reaction>
    decreases part,
{
    match part {
        MessagePart::Empty => Seq::empty(),
        MessagePart::Nested(inner) => emojis_of(inner@),
        MessagePart::CustomEmoji { animated, id, name } => seq![
            Reaction::Custom { animated, id, name },
        ],
        MessagePart::UnicodeEmoji(emoji) => seq![Reaction::Unicode(emoji)],
    }
}

/// The emoji of some parts of a message, in the order in which they stand
/// in it.
pub open spec fn emojis_of(parts: Seq<MessagePart>) -> Seq<Reaction>
    decreases parts,
{
    if parts.len() == 0 {
        Seq::empty()
    } else {
        emojis(parts[0]) + emojis_of(parts.subrange(1, parts.len() as int))
    }
}

/// Takes the first emoji out of the part and hands it back with what is
/// left of the part.
fn take_emoji(part: MessagePart) -> (found: (Option<Reaction>, MessagePart))
    ensures
        match found.0 {
            Some(emoji) => emojis(part) == seq![emoji] + emojis(found.1),
            None => emojis(part).len() == 0 && emojis(found.1).len() == 0,
        },
    decreases part,
{
    match part {
        MessagePart::Nested(inner) => {
            let ghost all = inner@;
            let mut rest = inner;
            let ghost mut at: int = 0;
            assert(all.subrange(0, all.len() as int) =~= all);
            while rest.len() > 0
                invariant
                    part == MessagePart::Nested(inner),
                    all == inner@,
                    0 <= at <= all.len(),
                    rest@ == all.subrange(at, all.len() as int),
                    emojis_of(all) == emojis_of(rest@),
                decreases rest.len(),
            {
                let ghost before = rest@;
                let child = rest.remove(0);
                proof {
                    assert(child == all[at]);
                    assert(rest@ =~= before.subrange(1, before.len() as int));
                    assert(rest@ =~= all.subrange(at + 1, all.len() as int));
                    assert(part is Nested);
                    assert(part->Nested_0 == inner);
                    assert(decreases_to!(part => part->Nested_0));
                    assert(decreases_to!(inner => inner[at]));
                    assert(inner[at] == child);
                }
                let (found, left) = take_emoji(child);
                match found {
                    Some(emoji) => {
                        let ghost after = rest@;
                        rest.insert(0, left);
                        proof {
                            assert(rest@[0] == left);
                            assert(rest@.subrange(1, rest@.len() as int) =~= after);
                        }
                        return (Some(emoji), MessagePart::Nested(rest));
                    },
                    None => {
                        proof {
                            at = at + 1;
                        }
                    },
                }
            }
            (None, MessagePart::Nested(rest))
        },
        MessagePart::CustomEmoji { animated, id, name } => (
            Some(Reaction::Custom { animated, id, name }),
            MessagePart::Empty,
        ),
        MessagePart::UnicodeEmoji(emoji) => (Some(Reaction::Unicode(emoji)), MessagePart::Empty),
        MessagePart::Empty => (None, MessagePart::Empty),
    }
}

/// Takes the first emoji out of the part of a message, if it holds one:
/// the part is left with the emoji that follow.
pub fn message_part_next_emoji(part: &mut MessagePart) -> (found: Option<Reaction>)
    ensures
        match found {
            Some(emoji) => emojis(*old(part)) == seq![emoji] + emojis(*final(part)),
            None => emojis(*old(part)).len() == 0 && emojis(*final(part)).len() == 0,
        },
{
    let mut taken = MessagePart::Empty;
    std::mem::swap(part, &mut taken);
    let (found, left) = take_emoji(taken);
    *part = left;
    found
}

/// An iterator over all the emoji in a message.
#[derive(Debug)]
pub struct Iter(MessagePart);

impl Iter {
    /// The emoji that are still to come.
    pub closed spec fn remaining(&self) -> Seq<Reaction> {
        emojis(self.0)
    }

    /// Create an iterator over all emoji in the given message.
    pub fn new(msg: MessagePart) -> (iter: Iter)
        ensures
            iter.remaining() == emojis(msg),
    {
        Iter(msg)
    }

    /// The next emoji of the message, if one is left.
    pub fn next(&mut self) -> (found: Option<Reaction>)
        ensures
            match found {
                Some(emoji) => old(self).remaining() == seq![emoji] + final(self).remaining(),
                None => old(self).remaining().len() == 0 && final(self).remaining().len() == 0,
            },
    {
        message_part_next_emoji(&mut self.0)
    }
}

} // verus!
