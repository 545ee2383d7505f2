//! The list of the members of the group, as other programs read it: the
//! ids, each once and in ascending order, and the four digits that older
//! accounts carry behind their name.

use crate::discord::{parse_snowflake, snowflake_id};
use crate::lists::{ascending, contains, except, lemma_ascending, ordered, remove_all, sort};
use crate::text::{decimal, padded, push_decimal, push_four_digits, views};
use vstd::prelude::*;

verus! {

/// The four digits behind the name of an older account.
#[derive(Debug, Clone, Copy, PartialEq, Eq, Structural)]
pub struct Discriminator(i16);

/// A discriminator as it is read: a number, or digits in a text.
#[derive(Debug, Clone, PartialEq, Eq)]
pub enum SerdeDiscriminator {
    Number(i16),
    Text(String),
}

/// Why a value is no discriminator.
#[derive(Debug, Clone, Copy, PartialEq, Eq, Structural)]
pub enum InvalidDiscriminator {
    /// The number is greater than 9999.
    Range(i16),
    /// The text is not four digits.
    StringPattern,
}

/// The character is one of the digits 0 to 9.
pub open spec fn is_digit(c: char) -> bool {
    '0' <= c && c <= '9'
}

/// The value of a digit.
pub open spec fn digit_value(c: char) -> int {
    c as u8 - '0' as u8
}

/// The text is four digits.
pub open spec fn four_digits(s: Seq<char>) -> bool {
    s.len() == 4 && is_digit(s[0]) && is_digit(s[1]) && is_digit(s[2]) && is_digit(s[3])
}

/// The number that four digits write.
pub open spec fn four_digit_value(s: Seq<char>) -> int {
    digit_value(s[0]) * 1000 + digit_value(s[1]) * 100 + digit_value(s[2]) * 10 + digit_value(
        s[3],
    )
}

/// The number that a value stands for, where it stands for one: a number
/// stands for itself, a text of four digits for what they write.
pub open spec fn number_of(value: SerdeDiscriminator) -> Option<int> {
    match value {
        SerdeDiscriminator::Number(n) => Some(n as int),
        SerdeDiscriminator::Text(s) => if four_digits(s@) {
            Some(four_digit_value(s@))
        } else {
            None
        },
    }
}

fn digit_of(c: char) -> (d: Option<i16>)
    ensures
        d is Some == is_digit(c),
        d is Some ==> d->0 == digit_value(c),
{
    if '0' <= c && c <= '9' {
        Some((c as u8 - '0' as u8) as i16)
    } else {
        None
    }
}

impl Discriminator {
    /// The number.
    pub closed spec fn value(self) -> int {
        self.0 as int
    }

    /// The number.
    pub fn get(&self) -> (n: i16)
        ensures
            n == self.value(),
    {
        self.0
    }

    /// Reads a discriminator: a number up to 9999, or a text of four
    /// digits.
    pub fn try_from(value: SerdeDiscriminator) -> (result: Result<
        Discriminator,
        InvalidDiscriminator,
    >)
        ensures
            match number_of(value) {
                None => result == Err::<Discriminator, InvalidDiscriminator>(
                    InvalidDiscriminator::StringPattern,
                ),
                Some(n) => if n > 9999 {
                    result == Err::<Discriminator, InvalidDiscriminator>(
                        InvalidDiscriminator::Range(n as i16),
                    )
                } else {
                    result is Ok && result->Ok_0.value() == n
                },
            },
    {
        let number: i16 = match value {
            SerdeDiscriminator::Number(n) => n,
            SerdeDiscriminator::Text(s) => {
                let text = s.as_str();
                if text.unicode_len() != 4 {
                    return Err(InvalidDiscriminator::StringPattern);
                }
                let digits = (
                    digit_of(text.get_char(0)),
                    digit_of(text.get_char(1)),
                    digit_of(text.get_char(2)),
                    digit_of(text.get_char(3)),
                );
                match digits {
                    (Some(a), Some(b), Some(c), Some(d)) => a * 1000 + b * 100 + c * 10 + d,
                    _ => {
                        return Err(InvalidDiscriminator::StringPattern);
                    },
                }
            },
        };
        if number > 9999 {
            return Err(InvalidDiscriminator::Range(number));
        }
        Ok(Discriminator(number))
    }

    /// How the discriminator is written: with four characters at least,
    /// filled with zeros behind the sign.
    pub open spec fn text(self) -> Seq<char> {
        if self.value() >= 0 {
            padded(self.value() as nat, 4)
        } else {
            "-"@ + padded((-self.value()) as nat, 3)
        }
    }

    /// How the discriminator is written.
    pub fn to_string(&self) -> (text: String)
        ensures
            text@ == self.text(),
    {
        let mut text = String::new();
        if self.0 >= 0 {
            push_four_digits(&mut text, self.0 as u16);
            assert(text@ =~= self.text());
        } else {
            let size: u16 = (-(self.0 as i32)) as u16;
            text.append("-");
            proof {
                crate::text::lemma_decimal_len(size as nat);
                reveal_with_fuel(padded, 4);
            }
            if size < 10 {
                text.append("00");
                proof {
                    reveal_strlit("00");
                    assert("00"@ + decimal(size as nat) =~= padded(size as nat, 3));
                }
            } else if size < 100 {
                text.append("0");
                proof {
                    reveal_strlit("0");
                    assert("0"@ + decimal(size as nat) =~= padded(size as nat, 3));
                }
            }
            push_decimal(&mut text, size as u128);
            assert(text@ =~= self.text());
        }
        text
    }
}

/// The value is how an account without discriminator is written: the
/// number 0 or the text "0".
pub open spec fn is_none(value: SerdeDiscriminator) -> bool {
    match value {
        SerdeDiscriminator::Number(n) => n == 0,
        SerdeDiscriminator::Text(s) => s@ == "0"@,
    }
}

/// Reads the discriminator of an account, which newer accounts do not
/// have: for them the value is the number 0 or the text "0".
pub fn discord_opt_discriminator(value: SerdeDiscriminator) -> (result: Result<
    Option<Discriminator>,
    InvalidDiscriminator,
>)
    ensures
        is_none(value) ==> result == Ok::<Option<Discriminator>, InvalidDiscriminator>(None),
        !is_none(value) ==> match number_of(value) {
            None => result == Err::<Option<Discriminator>, InvalidDiscriminator>(
                InvalidDiscriminator::StringPattern,
            ),
            Some(n) => if n > 9999 {
                result == Err::<Option<Discriminator>, InvalidDiscriminator>(
                    InvalidDiscriminator::Range(n as i16),
                )
            } else {
                result is Ok && result->Ok_0 is Some && result->Ok_0->0.value() == n
            },
        },
{
    let none = match &value {
        SerdeDiscriminator::Number(n) => *n == 0,
        SerdeDiscriminator::Text(s) => crate::text::same_text(s.as_str(), "0"),
    };
    if none {
        return Ok(None);
    }
    match Discriminator::try_from(value) {
        Ok(disc) => Ok(Some(disc)),
        Err(error) => Err(error),
    }
}

/// `s` without an entry that equals the one before it.
pub open spec fn squeezed(s: Seq<u64>) -> Seq<u64>
    decreases s.len(),
{
    if s.len() == 0 {
        Seq::empty()
    } else if s.len() >= 2 && s[s.len() - 2] == s.last() {
        squeezed(s.drop_last())
    } else {
        squeezed(s.drop_last()).push(s.last())
    }
}

/// The ids, each once, in ascending order.
pub open spec fn listing(ids: Seq<u64>) -> Seq<u64> {
    squeezed(ascending(ids))
}

/// No entry of `s` is as great as a later one.
pub open spec fn strictly_ordered(s: Seq<u64>) -> bool {
    forall|i: int, j: int| 0 <= i < j < s.len() ==> s[i] < s[j]
}

proof fn lemma_squeezed(s: Seq<u64>)
    requires
        ordered(s),
    ensures
        strictly_ordered(squeezed(s)),
        forall|x: u64| #[trigger] squeezed(s).contains(x) <==> s.contains(x),
        s.len() > 0 ==> squeezed(s).len() > 0 && squeezed(s).last() == s.last(),
    decreases s.len(),
{
    if s.len() > 0 {
        let head = s.drop_last();
        assert(ordered(head)) by {
            assert forall|i: int, j: int| 0 <= i < j < head.len() implies head[i] <= head[j] by {
                assert(s[i] <= s[j]);
            }
        }
        lemma_squeezed(head);
        let inner = squeezed(head);
        let r = squeezed(s);
        assert forall|x: u64| #[trigger] r.contains(x) <==> s.contains(x) by {
            if r.contains(x) {
                let i = choose|i: int| 0 <= i < r.len() && r[i] == x;
                if i < inner.len() {
                    assert(inner[i] == x);
                    assert(inner.contains(x));
                    let k = choose|k: int| 0 <= k < head.len() && head[k] == x;
                    assert(s[k] == x);
                } else {
                    assert(s[s.len() - 1] == x);
                }
            }
            if s.contains(x) {
                let i = choose|i: int| 0 <= i < s.len() && s[i] == x;
                if i < head.len() {
                    assert(head[i] == x);
                    assert(head.contains(x));
                    assert(inner.contains(x));
                    let k = choose|k: int| 0 <= k < inner.len() && inner[k] == x;
                    assert(r[k] == x);
                } else if s.len() >= 2 && s[s.len() - 2] == s.last() {
                    assert(head[head.len() - 1] == x);
                    assert(head.contains(x));
                    assert(inner.contains(x));
                } else {
                    assert(r[inner.len() as int] == x);
                }
            }
        }
        if !(s.len() >= 2 && s[s.len() - 2] == s.last()) {
            assert forall|i: int, j: int| 0 <= i < j < r.len() implies r[i] < r[j] by {
                if j == inner.len() {
                    assert(inner[i] == r[i]);
                    assert(inner.contains(inner[i]));
                    assert(head.contains(inner[i]));
                    let k = choose|k: int| 0 <= k < head.len() && head[k] == inner[i];
                    assert(s[k] <= s[s.len() - 2]);
                    assert(s[s.len() - 2] <= s[s.len() - 1]);
                } else {
                    assert(inner[i] < inner[j]);
                }
            }
        }
    }
}

/// The listing holds every id once, in ascending order, and no other.
pub proof fn lemma_listing(ids: Seq<u64>)
    ensures
        strictly_ordered(listing(ids)),
        forall|x: u64| #[trigger] listing(ids).contains(x) <==> ids.contains(x),
{
    lemma_ascending(ids);
    lemma_squeezed(ascending(ids));
    assert forall|x: u64| #[trigger] listing(ids).contains(x) <==> ids.contains(x) by {
        assert(squeezed(ascending(ids)).contains(x) <==> ascending(ids).contains(x));
    }
}

/// The list of the members from scratch: the ids, each once, in ascending
/// order.
pub fn set(user_ids: &Vec<u64>) -> (ids: Vec<u64>)
    ensures
        ids@ == listing(user_ids@),
{
    let sorted = sort(user_ids);
    let mut ids: Vec<u64> = Vec::new();
    let mut i: usize = 0;
    while i < sorted.len()
        invariant
            i <= sorted.len(),
            ids@ == squeezed(sorted@.take(i as int)),
        decreases sorted.len() - i,
    {
        assert(sorted@.take(i as int + 1).drop_last() =~= sorted@.take(i as int));
        if !(i >= 1 && sorted[i - 1] == sorted[i]) {
            ids.push(sorted[i]);
        }
        i += 1;
    }
    assert(sorted@.take(i as int) =~= sorted@);
    ids
}

/// The id to write behind the list when a member joins: nothing where the
/// list holds it already.
pub fn add(listed: &Vec<u64>, user_id: u64) -> (line: Option<u64>)
    ensures
        line == if listed@.contains(user_id) {
            None
        } else {
            Some(user_id)
        },
{
    if contains(listed, user_id) {
        None
    } else {
        Some(user_id)
    }
}

/// The list to write when a member leaves: nothing where the list does not
/// hold the member; otherwise the other ids, each once, in ascending order.
pub fn remove(listed: &Vec<u64>, user_id: u64) -> (ids: Option<Vec<u64>>)
    ensures
        match ids {
            None => !listed@.contains(user_id),
            Some(ids) => listed@.contains(user_id) && ids@ == listing(except(listed@, user_id)),
        },
{
    if !contains(listed, user_id) {
        return None;
    }
    let rest = remove_all(listed, user_id);
    Some(set(&rest))
}

/// The ids that the first `upto` lines hold, where each line holds one.
pub open spec fn ids_upto(lines: Seq<Seq<char>>, upto: int) -> Option<Seq<u64>>
    decreases upto,
{
    if upto <= 0 {
        Some(Seq::empty())
    } else {
        match (ids_upto(lines, upto - 1), snowflake_id(lines[upto - 1])) {
            (Some(ids), Some(id)) => Some(ids.push(id)),
            _ => None,
        }
    }
}

/// Reads the list: one id in each line. Nothing is read where a line holds
/// no id.
pub fn ids_of_lines(lines: &Vec<String>) -> (ids: Option<Vec<u64>>)
    ensures
        match ids {
            Some(ids) => ids_upto(views(lines@), lines@.len() as int) == Some(ids@),
            None => ids_upto(views(lines@), lines@.len() as int) is None,
        },
{
    let mut ids: Vec<u64> = Vec::new();
    let mut i: usize = 0;
    let ghost all = views(lines@);
    while i < lines.len()
        invariant
            i <= lines.len(),
            all == views(lines@),
            ids_upto(all, i as int) == Some(ids@),
        decreases lines.len() - i,
    {
        assert(all[i as int] == lines@[i as int]@);
        match parse_snowflake(lines[i].as_str()) {
            Some(id) => {
                ids.push(id);
            },
            None => {
                proof {
                    lemma_ids_stay_none(all, i as int + 1, lines@.len() as int);
                }
                return None;
            },
        }
        i += 1;
    }
    Some(ids)
}

proof fn lemma_ids_stay_none(lines: Seq<Seq<char>>, from: int, upto: int)
    requires
        0 <= from <= upto,
        ids_upto(lines, from) is None,
    ensures
        ids_upto(lines, upto) is None,
    decreases upto - from,
{
    if from < upto {
        lemma_ids_stay_none(lines, from, upto - 1);
    }
}

} // verus!
