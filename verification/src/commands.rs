//! What the bot's commands decide: who gets which role, what is answered,
//! and which reactions a poll gets.

use crate::text::{decimal, push_decimal};
use vstd::prelude::*;

verus! {

/// The group that the bot serves.
pub const GEFOLGE: u64 = 355761290809180170;

/// The role of those who run the group.
pub const ADMIN: u64 = 355776689051140099;

/// The role of whoever leads a quiz.
pub const QUIZMASTER: u64 = 847443327069454378;

/// The role of the members.
pub const MENSCH: u64 = 386753710434287626;

/// The role of the guests.
pub const GUEST: u64 = 784929665478557737;

/// The owner of the bot.
pub const FENHL: u64 = 86841168427495424;

/// The number of teams.
pub const TEAM_COUNT: usize = 6;

/// The role of team number `index`, counted from zero.
pub open spec fn team_role(index: int) -> u64 {
    if index == 0 {
        828431321586991104
    } else if index == 1 {
        828431500747735100
    } else if index == 2 {
        828431624759935016
    } else if index == 3 {
        828431736194072606
    } else if index == 4 {
        828431741332750407
    } else {
        828431913738960956
    }
}

/// The roles of the teams, in order.
pub open spec fn team_roles() -> Seq<u64> {
    Seq::new(TEAM_COUNT as nat, |i: int| team_role(i))
}

/// The roles of the teams, in order.
pub fn teams() -> (roles: Vec<u64>)
    ensures
        roles@ == team_roles(),
{
    let roles =
        vec![
        828431321586991104u64,
        828431500747735100u64,
        828431624759935016u64,
        828431736194072606u64,
        828431741332750407u64,
        828431913738960956u64,
    ];
    assert(roles@ =~= team_roles());
    roles
}

/// What changes when a member moves to a team.
#[derive(Debug, Clone, PartialEq, Eq)]
pub struct TeamChange {
    /// The roles that the member loses: those of the other teams.
    pub remove: Vec<u64>,
    /// The role that the member gets: that of the team.
    pub add: u64,
    /// What the member is answered.
    pub reply: String,
}

/// The roles of the teams other than `index`, from the first `upto`.
pub open spec fn other_teams(index: int, upto: int) -> Seq<u64>
    decreases upto,
{
    if upto <= 0 {
        Seq::empty()
    } else if upto - 1 == index {
        other_teams(index, upto - 1)
    } else {
        other_teams(index, upto - 1).push(team_role(upto - 1))
    }
}

/// What a member is answered who has moved to a team.
pub open spec fn team_reply(team: i64) -> Seq<char> {
    "du bist jetzt in Team "@ + decimal(team as nat)
}

/// Moves a member to the team with this number, counted from one: the
/// member loses the roles of the other teams and gets that of the team.
pub fn team(number: i64) -> (change: TeamChange)
    requires
        1 <= number <= TEAM_COUNT,
    ensures
        change.remove@ == other_teams(number - 1, TEAM_COUNT as int),
        change.add == team_role(number - 1),
        change.reply@ == team_reply(number),
{
    let team = number;
    let team_idx = (team - 1) as usize;
    let roles = teams();
    let mut remove: Vec<u64> = Vec::new();
    let mut idx: usize = 0;
    while idx < roles.len()
        invariant
            idx <= roles.len(),
            roles@ == team_roles(),
            remove@ == other_teams(team_idx as int, idx as int),
        decreases roles.len() - idx,
    {
        if idx != team_idx {
            remove.push(roles[idx]);
        }
        idx += 1;
    }
    let mut reply = String::new();
    reply.append("du bist jetzt in Team ");
    push_decimal(&mut reply, team as u128);
    assert(reply@ =~= team_reply(team));
    TeamChange { remove, add: roles[team_idx], reply }
}

/// The roles that the end of a quiz takes from everybody: that of the
/// quizmaster and those of the teams.
pub fn reset_quiz() -> (roles: Vec<u64>)
    ensures
        roles@ == seq![QUIZMASTER] + team_roles(),
{
    let mut roles: Vec<u64> = Vec::new();
    roles.push(QUIZMASTER);
    let all = teams();
    let mut i: usize = 0;
    while i < all.len()
        invariant
            i <= all.len(),
            all@ == team_roles(),
            roles@ == seq![QUIZMASTER] + team_roles().take(i as int),
        decreases all.len() - i,
    {
        roles.push(all[i]);
        i += 1;
        assert(roles@ =~= seq![QUIZMASTER] + team_roles().take(i as int));
    }
    assert(team_roles().take(i as int) =~= team_roles());
    roles
}

/// What a request for a role, or to be rid of one, ends with.
#[derive(Debug, Clone, Copy, PartialEq, Eq, Structural)]
pub enum RoleReply {
    /// Members cannot assign this role to themselves.
    NotSelfAssignable,
    /// The member holds the role already.
    AlreadyHeld,
    /// The member does not hold the role.
    NotHeld,
    /// The role is to be changed as asked.
    Done,
}

impl RoleReply {
    /// What the member is answered.
    pub open spec fn text(self) -> Seq<char> {
        match self {
            RoleReply::NotSelfAssignable => "diese Rolle ist nicht selbstzuweisbar"@,
            RoleReply::AlreadyHeld => "du hast diese Rolle schon"@,
            RoleReply::NotHeld => "du hast diese Rolle sowieso nicht"@,
            RoleReply::Done => "✅"@,
        }
    }

    /// What the member is answered.
    pub fn message(&self) -> (text: &'static str)
        ensures
            text@ == self.text(),
    {
        match self {
            RoleReply::NotSelfAssignable => "diese Rolle ist nicht selbstzuweisbar",
            RoleReply::AlreadyHeld => "du hast diese Rolle schon",
            RoleReply::NotHeld => "du hast diese Rolle sowieso nicht",
            RoleReply::Done => "✅",
        }
    }
}

/// A member asks for a role: it is given where members can assign it to
/// themselves and the member does not hold it.
pub fn iam(self_assignable: bool, holds: bool) -> (reply: RoleReply)
    ensures
        reply == if !self_assignable {
            RoleReply::NotSelfAssignable
        } else if holds {
            RoleReply::AlreadyHeld
        } else {
            RoleReply::Done
        },
{
    if !self_assignable {
        RoleReply::NotSelfAssignable
    } else if holds {
        RoleReply::AlreadyHeld
    } else {
        RoleReply::Done
    }
}

/// A member asks to be rid of a role: it is taken where members can assign
/// it to themselves and the member holds it.
pub fn iamn(self_assignable: bool, holds: bool) -> (reply: RoleReply)
    ensures
        reply == if !self_assignable {
            RoleReply::NotSelfAssignable
        } else if !holds {
            RoleReply::NotHeld
        } else {
            RoleReply::Done
        },
{
    if !self_assignable {
        RoleReply::NotSelfAssignable
    } else if !holds {
        RoleReply::NotHeld
    } else {
        RoleReply::Done
    }
}

/// `count` times the character `c`.
pub open spec fn repeated(c: char, count: nat) -> Seq<char> {
    Seq::new(count, |i: int| c)
}

/// The long answer to a ping: a growl with `rs` times R and `ns` times N.
pub open spec fn pingception_text(rs: nat, ns: nat) -> Seq<char> {
    "BWO"@ + repeated('R', rs) + repeated('N', ns) + "G"@
}

/// The long answer to a ping: a growl with `rs` times R and `ns` times N.
pub fn pingception(rs: usize, ns: usize) -> (text: String)
    ensures
        text@ == pingception_text(rs as nat, ns as nat),
{
    let mut text = String::new();
    text.append("BWO");
    let ghost head = text@;
    let mut i: usize = 0;
    while i < rs
        invariant
            i <= rs,
            text@ == head + repeated('R', i as nat),
        decreases rs - i,
    {
        text.push('R');
        i += 1;
        assert(text@ =~= head + repeated('R', i as nat));
    }
    let ghost body = text@;
    let mut k: usize = 0;
    while k < ns
        invariant
            k <= ns,
            text@ == body + repeated('N', k as nat),
        decreases ns - k,
    {
        text.push('N');
        k += 1;
        assert(text@ =~= body + repeated('N', k as nat));
    }
    text.append("G");
    assert(text@ =~= pingception_text(rs as nat, ns as nat));
    text
}

/// Asks the thread's generator of the `rand` crate for a number from `low`
/// up to, and without, `high`, which has to be greater. The number is in
/// that range; nothing more is known of it.
#[verifier::external_body]
fn roll(low: usize, high: usize) -> (n: usize)
    requires
        low < high,
    ensures
        low <= n < high,
{
    rand::Rng::gen_range(&mut rand::thread_rng(), low..high)
}

/// The answer to a ping: mostly "pong"; where `rare` holds, a growl of
/// random length.
pub fn ping(rare: bool) -> (text: String)
    ensures
        !rare ==> text@ == "pong"@,
        rare ==> exists|rs: nat, ns: nat|
            3 <= rs < 20 && 1 <= ns < 5 && text@ == #[trigger] pingception_text(rs, ns),
{
    if rare {
        let rs = roll(3, 20);
        let ns = roll(1, 5);
        let text = pingception(rs, ns);
        assert(text@ == pingception_text(rs as nat, ns as nat));
        text
    } else {
        let mut text = String::new();
        text.append("pong");
        assert(text@ =~= "pong"@);
        text
    }
}

/// The number of letters that a poll can offer.
pub const LETTERS: u8 = 26;

/// The code of the regional indicator for the letter A.
pub const FIRST_LETTER: u32 = 0x1F1E6;

/// The regional indicator for the letter in this position of the alphabet,
/// counted from zero.
pub fn nth_letter(n: u8) -> (letter: char)
    requires
        n < LETTERS,
    ensures
        letter as u32 == FIRST_LETTER + n,
{
    match n {
        0 => '\u{1F1E6}',
        1 => '\u{1F1E7}',
        2 => '\u{1F1E8}',
        3 => '\u{1F1E9}',
        4 => '\u{1F1EA}',
        5 => '\u{1F1EB}',
        6 => '\u{1F1EC}',
        7 => '\u{1F1ED}',
        8 => '\u{1F1EE}',
        9 => '\u{1F1EF}',
        10 => '\u{1F1F0}',
        11 => '\u{1F1F1}',
        12 => '\u{1F1F2}',
        13 => '\u{1F1F3}',
        14 => '\u{1F1F4}',
        15 => '\u{1F1F5}',
        16 => '\u{1F1F6}',
        17 => '\u{1F1F7}',
        18 => '\u{1F1F8}',
        19 => '\u{1F1F9}',
        20 => '\u{1F1FA}',
        21 => '\u{1F1FB}',
        22 => '\u{1F1FC}',
        23 => '\u{1F1FD}',
        24 => '\u{1F1FE}',
        _ => '\u{1F1FF}',
    }
}

/// What a poll offers to react with.
#[derive(Debug, Clone, PartialEq, Eq)]
pub enum Reactions {
    /// The emoji of the message, in the order in which they stand in it.
    Given,
    /// These characters.
    Letters(Vec<char>),
}

/// The characters that a poll with `number` choices offers: the first
/// letters of the alphabet, 26 at most; without a number, thumbs up and
/// down.
pub open spec fn poll_letters(number: Option<u8>) -> Seq<char> {
    match number {
        Some(n) => Seq::new(
            if n < LETTERS {
                n as nat
            } else {
                LETTERS as nat
            },
            |i: int| char_of((FIRST_LETTER + i) as u32),
        ),
        None => seq!['\u{1F44D}', '\u{1F44E}'],
    }
}

/// The character with this code.
pub open spec fn char_of(code: u32) -> char {
    code as char
}

/// What a poll offers to react with: the emoji of its message where it has
/// some; else as many letters as the number that follows the command says;
/// else thumbs up and down.
pub fn poll(has_emoji: bool, number: Option<u8>) -> (reactions: Reactions)
    ensures
        has_emoji ==> reactions == Reactions::Given,
        !has_emoji ==> (reactions matches Reactions::Letters(letters) && letters@ == poll_letters(
            number,
        )),
{
    if has_emoji {
        Reactions::Given
    } else if let Some(num_reactions) = number {
        let count = if num_reactions < LETTERS {
            num_reactions
        } else {
            LETTERS
        };
        let mut letters: Vec<char> = Vec::new();
        let mut i: u8 = 0;
        while i < count
            invariant
                i <= count <= LETTERS,
                letters@ == Seq::new(i as nat, |k: int| char_of((FIRST_LETTER + k) as u32)),
            decreases count - i,
        {
            let letter = nth_letter(i);
            assert(letter == char_of((FIRST_LETTER + i) as u32));
            letters.push(letter);
            i += 1;
            assert(letters@ =~= Seq::new(i as nat, |k: int| char_of((FIRST_LETTER + k) as u32)));
        }
        Reactions::Letters(letters)
    } else {
        let mut letters: Vec<char> = Vec::new();
        letters.push('\u{1F44D}');
        letters.push('\u{1F44E}');
        assert(letters@ =~= poll_letters(number));
        Reactions::Letters(letters)
    }
}

} // verus!
