//! German language utilities.

use crate::text::{decimal, push_decimal, views};
use crate::werewolf::rules::{Faction, Role};
use vstd::prelude::*;

verus! {

/// Grammatical gender.
#[derive(Debug, Clone, Copy, PartialEq, Eq, Structural)]
pub enum Gender {
    M,
    F,
    N,
}

/// Grammatical case.
#[derive(Debug, Clone, Copy, PartialEq, Eq, Structural)]
pub enum Case {
    Nom,
    Gen,
    Acc,
    Dat,
}

/// The definite article in the given case, for a singular noun of the given
/// gender or, with no gender, for a plural.
pub open spec fn article_text(case: Case, gender: Option<Gender>) -> Seq<char> {
    match (case, gender) {
        (Case::Nom, Some(Gender::M)) => "der"@,
        (Case::Gen, Some(Gender::F)) => "der"@,
        (Case::Gen, None) => "der"@,
        (Case::Dat, Some(Gender::F)) => "der"@,
        (Case::Nom, Some(Gender::F)) => "die"@,
        (Case::Nom, None) => "die"@,
        (Case::Acc, Some(Gender::F)) => "die"@,
        (Case::Acc, None) => "die"@,
        (Case::Nom, Some(Gender::N)) => "das"@,
        (Case::Acc, Some(Gender::N)) => "das"@,
        (Case::Gen, Some(Gender::M)) => "des"@,
        (Case::Gen, Some(Gender::N)) => "des"@,
        (Case::Acc, Some(Gender::M)) => "den"@,
        (Case::Dat, None) => "den"@,
        (Case::Dat, Some(Gender::M)) => "dem"@,
        (Case::Dat, Some(Gender::N)) => "dem"@,
    }
}

/// The definite article in the given case, for a singular noun of the given
/// gender or, with no gender, for a plural.
pub fn article(case: Case, gender: Option<Gender>) -> (word: &'static str)
    ensures
        word@ == article_text(case, gender),
{
    match (case, gender) {
        (Case::Nom, Some(Gender::M)) | (Case::Gen, Some(Gender::F)) | (Case::Gen, None) | (
            Case::Dat,
            Some(Gender::F),
        ) => "der",
        (Case::Nom, Some(Gender::F)) | (Case::Nom, None) | (Case::Acc, Some(Gender::F)) | (
            Case::Acc,
            None,
        ) => "die",
        (Case::Nom, Some(Gender::N)) | (Case::Acc, Some(Gender::N)) => "das",
        (Case::Gen, Some(Gender::M)) | (Case::Gen, Some(Gender::N)) => "des",
        (Case::Acc, Some(Gender::M)) | (Case::Dat, None) => "den",
        (Case::Dat, Some(Gender::M)) | (Case::Dat, Some(Gender::N)) => "dem",
    }
}

/// The indefinite article in the given case and gender.
pub open spec fn one_text(case: Case, gender: Gender) -> Seq<char> {
    match (case, gender) {
        (Case::Nom, Gender::M) => "ein"@,
        (Case::Nom, Gender::N) => "ein"@,
        (Case::Acc, Gender::N) => "ein"@,
        (Case::Nom, Gender::F) => "eine"@,
        (Case::Acc, Gender::F) => "eine"@,
        (Case::Gen, Gender::M) => "eines"@,
        (Case::Gen, Gender::N) => "eines"@,
        (Case::Gen, Gender::F) => "einer"@,
        (Case::Dat, Gender::F) => "einer"@,
        (Case::Acc, Gender::M) => "einen"@,
        (Case::Dat, Gender::M) => "einem"@,
        (Case::Dat, Gender::N) => "einem"@,
    }
}

/// The number `n` before a noun: the indefinite article for one, the decimal
/// numeral otherwise.
pub open spec fn cardinal_text(n: u64, case: Case, gender: Gender) -> Seq<char> {
    if n == 1 {
        one_text(case, gender)
    } else {
        decimal(n as nat)
    }
}

/// The number `n` before a noun: the indefinite article for one, the decimal
/// numeral otherwise.
pub fn cardinal(n: u64, case: Case, gender: Gender) -> (word: String)
    ensures
        word@ == cardinal_text(n, case, gender),
{
    let mut word = String::new();
    if n == 1 {
        let one = match (case, gender) {
            (Case::Nom, Gender::M) | (Case::Nom, Gender::N) | (Case::Acc, Gender::N) => "ein",
            (Case::Nom, Gender::F) | (Case::Acc, Gender::F) => "eine",
            (Case::Gen, Gender::M) | (Case::Gen, Gender::N) => "eines",
            (Case::Gen, Gender::F) | (Case::Dat, Gender::F) => "einer",
            (Case::Acc, Gender::M) => "einen",
            (Case::Dat, Gender::M) | (Case::Dat, Gender::N) => "einem",
        };
        word.append(one);
        assert(word@ =~= one@);
    } else {
        push_decimal(&mut word, n as u128);
        assert(word@ =~= decimal(n as nat));
    }
    word
}

/// The gender of a faction's name; none for a name in the plural.
pub open spec fn faction_gender_of(faction: Faction) -> Option<Gender> {
    match faction {
        Faction::Village => Some(Gender::N),
        Faction::Werewolves => None,
    }
}

/// The gender of a faction's name; none for a name in the plural.
pub fn faction_gender(faction: Faction) -> (gender: Option<Gender>)
    ensures
        gender == faction_gender_of(faction),
{
    match faction {
        Faction::Village => Some(Gender::N),
        Faction::Werewolves => None,
    }
}

/// The name of a faction in the given case.
pub open spec fn faction_name_text(faction: Faction, case: Case) -> Seq<char> {
    match faction {
        Faction::Village => if case == Case::Gen {
            "Dorfes"@
        } else {
            "Dorf"@
        },
        Faction::Werewolves => if case == Case::Dat {
            "Werwölfen"@
        } else {
            "Werwölfe"@
        },
    }
}

/// The name of a faction in the given case.
pub fn faction_name(faction: Faction, case: Case) -> (name: &'static str)
    ensures
        name@ == faction_name_text(faction, case),
{
    match faction {
        Faction::Village => match case {
            Case::Gen => "Dorfes",
            _ => "Dorf",
        },
        Faction::Werewolves => match case {
            Case::Dat => "Werwölfen",
            _ => "Werwölfe",
        },
    }
}

/// The name of one member's faction in the given case.
pub open spec fn faction_name_sg_text(faction: Faction, case: Case) -> Seq<char> {
    match faction {
        Faction::Village => if case == Case::Gen {
            "Dorfes"@
        } else {
            "Dorf"@
        },
        Faction::Werewolves => "Werwolf"@,
    }
}

/// The name of one member's faction in the given case.
pub fn faction_name_sg(faction: Faction, case: Case) -> (name: &'static str)
    ensures
        name@ == faction_name_sg_text(faction, case),
{
    match faction {
        Faction::Village => match case {
            Case::Gen => "Dorfes",
            _ => "Dorf",
        },
        Faction::Werewolves => "Werwolf",
    }
}

/// The words from `from` up to `to`, each behind a comma and a blank.
pub open spec fn listed(words: Seq<Seq<char>>, from: int, to: int) -> Seq<char>
    decreases to - from,
{
    if from >= to {
        Seq::empty()
    } else {
        listed(words, from, to - 1) + ", "@ + words[to - 1]
    }
}

/// The words as an enumeration: commas between them and "und" before the
/// last. Without words it is the fallback.
pub open spec fn join_text(empty: Option<Seq<char>>, words: Seq<Seq<char>>) -> Seq<char> {
    if words.len() == 0 {
        empty->0
    } else if words.len() == 1 {
        words[0]
    } else {
        words[0] + listed(words, 1, words.len() - 1) + " und "@ + words.last()
    }
}

/// What the fallback holds, where there is one.
pub open spec fn fallback(empty: Option<String>) -> Option<Seq<char>> {
    match empty {
        Some(word) => Some(word@),
        None => None,
    }
}

/// The words as an enumeration: commas between them and "und" before the
/// last. Without words it is the fallback, which then has to be there.
pub fn join(empty: Option<String>, words: Vec<String>) -> (text: String)
    requires
        words@.len() == 0 ==> empty is Some,
    ensures
        text@ == join_text(fallback(empty), views(words@)),
{
    let n = words.len();
    if n == 0 {
        return empty.unwrap();
    }
    let ghost all = views(words@);
    let mut text = String::new();
    text.append(words[0].as_str());
    assert(text@ =~= all[0]);
    if n == 1 {
        return text;
    }
    let mut i: usize = 1;
    while i < n - 1
        invariant
            1 <= i <= n - 1,
            n == words@.len(),
            all == views(words@),
            text@ == all[0] + listed(all, 1, i as int),
        decreases n - i,
    {
        text.append(", ");
        text.append(words[i].as_str());
        i += 1;
        assert(text@ =~= all[0] + listed(all, 1, i as int));
    }
    text.append(" und ");
    text.append(words[n - 1].as_str());
    assert(text@ =~= join_text(fallback(empty), all));
    text
}

/// The gender of a role's name.
pub open spec fn role_gender_of(role: Role) -> Gender {
    Gender::M
}

/// The gender of a role's name.
pub fn role_gender(role: Role) -> (gender: Gender)
    ensures
        gender == role_gender_of(role),
{
    match role {
        Role::Detective => Gender::M,
        Role::Healer => Gender::M,
        Role::Villager => Gender::M,
        Role::Werewolf(_) => Gender::M,
    }
}

/// The noun of a role in the given case and number.
pub open spec fn role_noun(role: Role, case: Case, plural: bool) -> Seq<char> {
    match role {
        Role::Detective => if !plural {
            if case == Case::Gen {
                "Detektivs"@
            } else {
                "Detektiv"@
            }
        } else if case == Case::Dat {
            "Detektiven"@
        } else {
            "Detektive"@
        },
        Role::Healer => if !plural && case == Case::Gen {
            "Heilers"@
        } else if plural && case == Case::Dat {
            "Heilern"@
        } else {
            "Heiler"@
        },
        Role::Villager => if !plural && case == Case::Gen {
            "Dorfbewohners"@
        } else if plural && case == Case::Dat {
            "Dorfbewohnern"@
        } else {
            "Dorfbewohner"@
        },
        Role::Werewolf(_) => if !plural {
            if case == Case::Gen {
                "Werwolfs"@
            } else {
                "Werwolf"@
            }
        } else if case == Case::Dat {
            "Werwölfen"@
        } else {
            "Werwölfe"@
        },
    }
}

/// The name of a role in the given case and number. A werewolf's name ends
/// with its rank, counted from one.
pub open spec fn role_name_text(role: Role, case: Case, plural: bool) -> Seq<char> {
    match role {
        Role::Werewolf(rank) => role_noun(role, case, plural) + " (Rollenrang "@ + decimal(
            (rank + 1) as nat,
        ) + ")"@,
        _ => role_noun(role, case, plural),
    }
}

fn role_word(role: Role, case: Case, plural: bool) -> (word: &'static str)
    ensures
        word@ == role_noun(role, case, plural),
{
    match role {
        Role::Detective => match (case, plural) {
            (Case::Gen, false) => "Detektivs",
            (_, false) => "Detektiv",
            (Case::Dat, true) => "Detektiven",
            (_, true) => "Detektive",
        },
        Role::Healer => match (case, plural) {
            (Case::Gen, false) => "Heilers",
            (Case::Dat, true) => "Heilern",
            _ => "Heiler",
        },
        Role::Villager => match (case, plural) {
            (Case::Gen, false) => "Dorfbewohners",
            (Case::Dat, true) => "Dorfbewohnern",
            _ => "Dorfbewohner",
        },
        Role::Werewolf(_) => match (case, plural) {
            (Case::Gen, false) => "Werwolfs",
            (_, false) => "Werwolf",
            (Case::Dat, true) => "Werwölfen",
            (_, true) => "Werwölfe",
        },
    }
}

/// The name of a role in the given case and number. A werewolf's name ends
/// with its rank, counted from one.
pub fn role_name(role: Role, case: Case, plural: bool) -> (name: String)
    ensures
        name@ == role_name_text(role, case, plural),
{
    let mut name = String::new();
    name.append(role_word(role, case, plural));
    if let Role::Werewolf(rank) = role {
        name.append(" (Rollenrang ");
        push_decimal(&mut name, rank as u128 + 1);
        name.append(")");
    }
    assert(name@ =~= role_name_text(role, case, plural));
    name
}

/// The preposition "zu" with the dative article, contracted where German
/// contracts it.
pub open spec fn zu_text(gender: Option<Gender>) -> Seq<char> {
    let art = article_text(Case::Dat, gender);
    if art == "dem"@ {
        "zum"@
    } else if art == "der"@ {
        "zur"@
    } else {
        "zu "@ + art
    }
}

/// The preposition "zu" with the dative article, contracted where German
/// contracts it.
pub fn zu(gender: Option<Gender>) -> (word: String)
    ensures
        word@ == zu_text(gender),
{
    proof {
        reveal_strlit("dem");
        reveal_strlit("der");
        reveal_strlit("den");
        assert("den"@[2] != "dem"@[2]);
        assert("den"@[2] != "der"@[2]);
        assert("der"@[2] != "dem"@[2]);
    }
    let mut word = String::new();
    match gender {
        Some(Gender::M) | Some(Gender::N) => {
            word.append("zum");
            assert(word@ =~= "zum"@);
        },
        Some(Gender::F) => {
            word.append("zur");
            assert(word@ =~= "zur"@);
        },
        None => {
            word.append("zu ");
            word.append(article(Case::Dat, gender));
            assert(word@ =~= "zu "@ + article_text(Case::Dat, gender));
        },
    }
    word
}

} // verus!
