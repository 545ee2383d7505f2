//! Utilities for parsing messages into commands and game actions.

use crate::discord::{parse_role_mention, parse_user_mention, role_mention_id, user_mention_id};
use crate::lists::exactly_one;
use crate::text::{first_index, lemma_first_index, lemma_first_index_is, same_text};
use vstd::prelude::*;

verus! {

/// The number of blanks at the start of `s`.
pub open spec fn blanks(s: Seq<char>) -> int
    decreases s.len(),
{
    if s.len() == 0 || s[0] != ' ' {
        0
    } else {
        1 + blanks(s.drop_first())
    }
}

/// `s` without the blanks at its start.
pub open spec fn trimmed(s: Seq<char>) -> Seq<char> {
    s.skip(blanks(s))
}

/// The first word of `s`: what stands before the first blank.
pub open spec fn first_word(s: Seq<char>) -> Seq<char> {
    s.take(first_index(s, ' '))
}

/// `s` without its first word and the blanks behind it.
pub open spec fn after_word(s: Seq<char>) -> Seq<char> {
    trimmed(s.skip(first_index(s, ' ')))
}

/// The start of `s` up to the first `>` and with it; all of `s` where it
/// has none.
pub open spec fn bracketed(s: Seq<char>) -> Seq<char> {
    if s.contains('>') {
        s.take(first_index(s, '>') + 1)
    } else {
        s
    }
}

/// `s` starts like a mention: with `<`, and `>` follows somewhere.
pub open spec fn opens_mention(s: Seq<char>) -> bool {
    s.len() > 0 && s[0] == '<' && s.contains('>')
}

/// The user that `s` starts with the mention of.
pub open spec fn leading_user(s: Seq<char>) -> Option<u64> {
    if opens_mention(s) {
        user_mention_id(bracketed(s))
    } else {
        None
    }
}

/// The role that `s` starts with the mention of.
pub open spec fn leading_role(s: Seq<char>) -> Option<u64> {
    if opens_mention(s) {
        role_mention_id(bracketed(s))
    } else {
        None
    }
}

proof fn lemma_blanks(s: Seq<char>)
    ensures
        0 <= blanks(s) <= s.len(),
        forall|k: int| 0 <= k < blanks(s) ==> s[k] == ' ',
        blanks(s) < s.len() ==> s[blanks(s)] != ' ',
    decreases s.len(),
{
    if s.len() > 0 && s[0] == ' ' {
        let rest = s.drop_first();
        lemma_blanks(rest);
        assert forall|k: int| 0 <= k < blanks(s) implies s[k] == ' ' by {
            if k > 0 {
                assert(rest[k - 1] == s[k]);
            }
        }
        if blanks(rest) < rest.len() {
            assert(s[blanks(s)] == rest[blanks(rest)]);
        }
    }
}

proof fn lemma_blanks_is(s: Seq<char>, at: int)
    requires
        0 <= at <= s.len(),
        forall|k: int| 0 <= k < at ==> s[k] == ' ',
        at < s.len() ==> s[at] != ' ',
    ensures
        blanks(s) == at,
{
    lemma_blanks(s);
    let found = blanks(s);
    if found < at {
        assert(s[found] == ' ');
    }
    if at < found {
        assert(s[at] == ' ');
    }
}

/// Removes the blanks at the start of the text.
pub fn eat_whitespace(subj: &mut &str)
    ensures
        final(subj)@ == trimmed(old(subj)@),
{
    let n = subj.unicode_len();
    let mut i: usize = 0;
    while i < n && subj.get_char(i) == ' '
        invariant
            i <= n,
            n == subj@.len(),
            forall|k: int| 0 <= k < i ==> subj@[k] == ' ',
        decreases n - i,
    {
        i += 1;
    }
    proof {
        lemma_blanks_is(subj@, i as int);
    }
    let rest = subj.substring_char(i, n);
    assert(rest@ =~= trimmed(subj@));
    *subj = rest;
}

/// The first word of the text: what stands before the first blank. A text
/// that is empty or starts with a blank has none.
pub fn next_word(subj: &str) -> (word: Option<String>)
    ensures
        match word {
            Some(word) => word@ == first_word(subj@) && word@.len() > 0,
            None => first_word(subj@).len() == 0,
        },
{
    let n = subj.unicode_len();
    let mut word = String::new();
    let mut i: usize = 0;
    while i < n && subj.get_char(i) != ' '
        invariant
            i <= n,
            n == subj@.len(),
            forall|k: int| 0 <= k < i ==> subj@[k] != ' ',
            word@ == subj@.take(i as int),
        decreases n - i,
    {
        word.push(subj.get_char(i));
        i += 1;
        assert(word@ =~= subj@.take(i as int));
    }
    proof {
        lemma_first_index_is(subj@, ' ', i as int);
    }
    if i == 0 {
        None
    } else {
        Some(word)
    }
}

/// Removes the first word of the text and the blanks behind it, and hands
/// the word back. A text that is empty or starts with a blank stays as it
/// is.
pub fn eat_word(cmd: &mut &str) -> (word: Option<String>)
    ensures
        match word {
            Some(word) => word@ == first_word(old(cmd)@) && word@.len() > 0 && final(cmd)@
                == after_word(old(cmd)@),
            None => first_word(old(cmd)@).len() == 0 && final(cmd)@ == old(cmd)@,
        },
{
    if let Some(word) = next_word(cmd) {
        let n = cmd.unicode_len();
        let from = word.as_str().unicode_len();
        proof {
            lemma_first_index(cmd@, ' ');
        }
        let mut rest = cmd.substring_char(from, n);
        assert(rest@ =~= cmd@.skip(first_index(cmd@, ' ')));
        eat_whitespace(&mut rest);
        *cmd = rest;
        Some(word)
    } else {
        None
    }
}

/// The start of the text up to the first `>` and with it, and its length in
/// characters. The text has to hold a `>`.
fn bracket(subj: &str) -> (found: (String, usize))
    requires
        subj@.contains('>'),
    ensures
        found.0@ == bracketed(subj@),
        found.1 == found.0@.len(),
        found.1 <= subj@.len(),
        found.0@.len() > 0,
        found.0@.last() == '>',
{
    let n = subj.unicode_len();
    let mut text = String::new();
    let mut i: usize = 0;
    proof {
        lemma_first_index(subj@, '>');
    }
    while i < n && subj.get_char(i) != '>'
        invariant
            i <= n,
            n == subj@.len(),
            forall|k: int| 0 <= k < i ==> subj@[k] != '>',
            text@ == subj@.take(i as int),
        decreases n - i,
    {
        text.push(subj.get_char(i));
        i += 1;
        assert(text@ =~= subj@.take(i as int));
    }
    proof {
        lemma_first_index_is(subj@, '>', i as int);
    }
    text.push('>');
    assert(text@ =~= subj@.take(i as int + 1));
    (text, i + 1)
}

/// Whether the text starts with `<` and holds a `>`.
fn starts_mention(subj: &str) -> (ok: bool)
    ensures
        ok == opens_mention(subj@),
{
    let n = subj.unicode_len();
    if n == 0 || subj.get_char(0) != '<' {
        return false;
    }
    let mut i: usize = 0;
    while i < n
        invariant
            i <= n,
            n == subj@.len(),
            n > 0,
            subj@[0] == '<',
            forall|k: int| 0 <= k < i ==> subj@[k] != '>',
        decreases n - i,
    {
        if subj.get_char(i) == '>' {
            assert(subj@[i as int] == '>');
            return true;
        }
        i += 1;
    }
    false
}

/// Reads the mention of a user at the start of the text and removes it. A
/// text that does not start with one stays as it is.
pub fn eat_user_mention(subj: &mut &str) -> (id: Option<u64>)
    ensures
        id == leading_user(old(subj)@),
        final(subj)@ == if id is Some {
            old(subj)@.skip(bracketed(old(subj)@).len() as int)
        } else {
            old(subj)@
        },
{
    if !starts_mention(subj) {
        return None;
    }
    let (maybe_mention, len) = bracket(subj);
    match parse_user_mention(maybe_mention.as_str()) {
        Some(id) => {
            let n = subj.unicode_len();
            let rest = subj.substring_char(len, n);
            assert(rest@ =~= subj@.skip(len as int));
            *subj = rest;
            Some(id)
        },
        None => None,
    }
}

/// Reads the mention of a role at the start of the text and removes the
/// word that it stands in, with the blanks behind it. A text that does not
/// start with one stays as it is.
pub fn eat_role_mention(cmd: &mut &str) -> (id: Option<u64>)
    ensures
        id == leading_role(old(cmd)@),
        final(cmd)@ == if id is Some && first_word(old(cmd)@).len() > 0 {
            after_word(old(cmd)@)
        } else {
            old(cmd)@
        },
{
    if !starts_mention(cmd) {
        return None;
    }
    let (maybe_mention, _) = bracket(cmd);
    match parse_role_mention(maybe_mention.as_str()) {
        Some(id) => {
            let _ = eat_word(cmd);
            Some(id)
        },
        None => None,
    }
}

/// A role of a group: its id and its name.
#[derive(Debug, Clone)]
pub struct RoleName {
    pub id: u64,
    pub name: String,
}

/// The ids of the first `upto` roles whose name is `name`.
pub open spec fn named(roles: Seq<RoleName>, name: Seq<char>, upto: int) -> Seq<u64>
    decreases upto,
{
    if upto <= 0 {
        Seq::empty()
    } else if roles[upto - 1].name@ == name {
        named(roles, name, upto - 1).push(roles[upto - 1].id)
    } else {
        named(roles, name, upto - 1)
    }
}

/// The role that the whole of `s` stands for: the role that it mentions,
/// or else the one role of the group with that name.
pub open spec fn full_role(s: Seq<char>, roles: Option<Seq<RoleName>>) -> Option<u64> {
    if leading_role(s) is Some {
        if first_word(s).len() > 0 && after_word(s).len() == 0 {
            leading_role(s)
        } else {
            None
        }
    } else {
        match roles {
            Some(roles) => {
                let found = named(roles, s, roles.len() as int);
                if found.len() == 1 {
                    Some(found[0])
                } else {
                    None
                }
            },
            None => None,
        }
    }
}

/// Returns a role given its mention or name, but only if it's the entire
/// command. A mention is removed from the text with its word; in every
/// other case the text stays as it is. `roles` are the roles of the group,
/// where there is a group.
pub fn eat_role_full(cmd: &mut &str, roles: Option<&Vec<RoleName>>) -> (id: Option<u64>)
    ensures
        id == full_role(
            old(cmd)@,
            match roles {
                Some(roles) => Some(roles@),
                None => None,
            },
        ),
        final(cmd)@ == if id is Some && leading_role(old(cmd)@) is Some {
            after_word(old(cmd)@)
        } else {
            old(cmd)@
        },
{
    let whole = *cmd;
    if let Some(role_id) = eat_role_mention(cmd) {
        if cmd.unicode_len() == 0 && whole.unicode_len() > 0 && whole.get_char(0)
            != ' ' {
            proof {
                lemma_first_index(whole@, ' ');
                if first_index(whole@, ' ') == 0 {
                    assert(whole@[0] == ' ');
                }
            }
            Some(role_id)
        } else {
            proof {
                lemma_first_index(whole@, ' ');
                if first_word(whole@).len() > 0 && whole@.len() > 0
                    && whole@[0] == ' ' {
                    lemma_first_index_is(whole@, ' ', 0);
                }
            }
            *cmd = whole;
            None
        }
    } else if let Some(roles) = roles {
        let mut found: Vec<u64> = Vec::new();
        let mut i: usize = 0;
        while i < roles.len()
            invariant
                i <= roles.len(),
                found@ == named(roles@, cmd@, i as int),
            decreases roles.len() - i,
        {
            if same_text(roles[i].name.as_str(), cmd) {
                found.push(roles[i].id);
            }
            i += 1;
        }
        exactly_one(found)
    } else {
        None
    }
}

} // verus!
