//! The texts that the engine sends, in German.

use crate::discord::{
    bold_safe_text,
    mono_safe_text,
    push_bold_safe,
    push_mono_safe,
    push_safe,
    safe_text,
};
use crate::lang::{
    cardinal,
    cardinal_text,
    faction_gender,
    faction_gender_of,
    faction_name,
    faction_name_sg,
    faction_name_sg_text,
    faction_name_text,
    join,
    join_text,
    role_gender,
    role_name,
    role_name_text,
    zu,
    zu_text,
    Case,
    Gender,
};
use crate::text::{decimal, padded, push_decimal, push_four_digits, views};
use crate::werewolf::rules::{role_in, Faction, Role, TableRow};
use vstd::prelude::*;

verus! {

/// How a participant is mentioned in a message.
pub open spec fn mention_text(id: u64) -> Seq<char> {
    "<@"@ + decimal(id as nat) + ">"@
}

/// Appends the mention of a participant.
pub fn push_mention(out: &mut String, id: u64)
    ensures
        final(out)@ == old(out)@ + mention_text(id),
{
    out.append("<@");
    push_decimal(out, id as u128);
    out.append(">");
    assert(final(out)@ =~= old(out)@ + mention_text(id));
}

/// How a participant is mentioned where the platform may not resolve the
/// mention: the mention, then the name in brackets, with the four digits
/// of the discriminator where the account still has one.
pub open spec fn dm_mention_text(id: u64, name: Seq<char>, discriminator: Option<u16>) -> Seq<
    char,
> {
    mention_text(id) + match discriminator {
        Some(number) => safe_text(" ("@ + name + "#"@ + padded(number as nat, 4) + ")"@),
        None => safe_text(" (@"@ + name + ")"@),
    }
}

/// How a participant is mentioned where the platform may not resolve the
/// mention.
pub fn dm_mention(id: u64, name: &str, discriminator: Option<u16>) -> (text: String)
    ensures
        text@ == dm_mention_text(id, name@, discriminator),
{
    let mut text = String::new();
    push_mention(&mut text, id);
    let mut tail = String::new();
    match discriminator {
        Some(number) => {
            tail.append(" (");
            tail.append(name);
            tail.append("#");
            push_four_digits(&mut tail, number);
            tail.append(")");
            assert(tail@ =~= " ("@ + name@ + "#"@ + padded(number as nat, 4) + ")"@);
        },
        None => {
            tail.append(" (@");
            tail.append(name);
            tail.append(")");
            assert(tail@ =~= " (@"@ + name@ + ")"@);
        },
    }
    let safe = push_safe(tail.as_str());
    text.append(safe.as_str());
    assert(text@ =~= dm_mention_text(id, name@, discriminator));
    text
}

/// The role that the first entry for `player` gives.
pub fn role_of(revealed: &Vec<(u64, Role)>, player: u64) -> (role: Option<Role>)
    ensures
        role == role_in(revealed@, player),
{
    let mut i: usize = 0;
    assert(revealed@.skip(0) =~= revealed@);
    while i < revealed.len()
        invariant
            i <= revealed.len(),
            role_in(revealed@, player) == role_in(revealed@.skip(i as int), player),
        decreases revealed.len() - i,
    {
        if revealed[i].0 == player {
            return Some(revealed[i].1);
        }
        assert(revealed@.skip(i as int).drop_first() =~= revealed@.skip(i as int + 1));
        i += 1;
    }
    None
}

/// The sentence that says that `player` has died, with the role where it is
/// known.
pub open spec fn death_line(player: u64, revealed: Seq<(u64, Role)>) -> Seq<char> {
    mention_text(player) + " ist tot"@ + match role_in(revealed, player) {
        Some(role) => " und war "@ + safe_text(role_name_text(role, Case::Nom, false)),
        None => Seq::empty(),
    } + "."@
}

/// The sentences for the first `upto` of the dead, with a blank between
/// them.
pub open spec fn deaths_upto(dead: Seq<u64>, revealed: Seq<(u64, Role)>, upto: int) -> Seq<char>
    decreases upto,
{
    if upto <= 0 {
        Seq::empty()
    } else {
        deaths_upto(dead, revealed, upto - 1) + if upto > 1 {
            " "@
        } else {
            Seq::empty()
        } + death_line(dead[upto - 1], revealed)
    }
}

/// The announcement of the dead, in the order of the list.
pub open spec fn deaths_text(dead: Seq<u64>, revealed: Seq<(u64, Role)>) -> Seq<char> {
    deaths_upto(dead, revealed, dead.len() as int)
}

/// The announcement of the dead, in the order of the list.
pub fn death_notice(dead: &Vec<u64>, revealed: &Vec<(u64, Role)>) -> (text: String)
    ensures
        text@ == deaths_text(dead@, revealed@),
{
    let mut text = String::new();
    let mut i: usize = 0;
    while i < dead.len()
        invariant
            i <= dead.len(),
            text@ == deaths_upto(dead@, revealed@, i as int),
        decreases dead.len() - i,
    {
        let ghost before = text@;
        if i > 0 {
            text.append(" ");
        }
        push_mention(&mut text, dead[i]);
        text.append(" ist tot");
        if let Some(role) = role_of(revealed, dead[i]) {
            text.append(" und war ");
            let name = role_name(role, Case::Nom, false);
            let safe = push_safe(name.as_str());
            text.append(safe.as_str());
        }
        text.append(".");
        i += 1;
        assert(text@ =~= deaths_upto(dead@, revealed@, i as int));
    }
    text
}

/// What is said when a day's discussion ends.
pub open spec fn discussion_closed_text() -> Seq<char> {
    "Die Diskussion ist geschlossen."@
}

/// What is said when a day's discussion ends.
pub fn discussion_closed() -> (text: String)
    ensures
        text@ == discussion_closed_text(),
{
    let mut text = String::new();
    text.append("Die Diskussion ist geschlossen.");
    assert(text@ =~= discussion_closed_text());
    text
}

/// What is said when a night begins.
pub open spec fn night_text() -> Seq<char> {
    "Es wird Nacht. Bitte schickt mir innerhalb der nächsten 3 Minuten eure Nachtaktionen."@
}

/// What is said when a night begins.
pub fn night_falls() -> (text: String)
    ensures
        text@ == night_text(),
{
    let mut text = String::new();
    text.append(
        "Es wird Nacht. Bitte schickt mir innerhalb der nächsten 3 Minuten eure Nachtaktionen.",
    );
    assert(text@ =~= night_text());
    text
}

/// What is said when enough participants have enrolled.
pub open spec fn starting_soon_text() -> Seq<char> {
    "das Spiel startet in einer Minute"@
}

/// What is said when enough participants have enrolled.
pub fn starting_soon() -> (text: String)
    ensures
        text@ == starting_soon_text(),
{
    let mut text = String::new();
    text.append("das Spiel startet in einer Minute");
    assert(text@ =~= starting_soon_text());
    text
}

/// What a player is told whose investigation found the side of `target`.
/// `mention` is how the target is mentioned.
pub open spec fn investigation_text(mention: Seq<char>, faction: Faction) -> Seq<char> {
    "Ergebnis deiner Nachtaktion: "@ + mention + " gehört "@ + safe_text(
        zu_text(faction_gender_of(faction)),
    ) + " "@ + safe_text(faction_name_text(faction, Case::Dat))
}

/// What a player is told whose investigation found the side of the target
/// with the given id, name and discriminator.
pub fn investigation_result(
    target: u64,
    name: &str,
    discriminator: Option<u16>,
    faction: Faction,
) -> (text: String)
    ensures
        text@ == investigation_text(dm_mention_text(target, name@, discriminator), faction),
{
    let mut text = String::new();
    text.append("Ergebnis deiner Nachtaktion: ");
    let mention = dm_mention(target, name, discriminator);
    text.append(mention.as_str());
    text.append(" gehört ");
    let prep = zu(faction_gender(faction));
    let safe_prep = push_safe(prep.as_str());
    text.append(safe_prep.as_str());
    text.append(" ");
    let safe_name = push_safe(faction_name(faction, Case::Dat));
    text.append(safe_name.as_str());
    assert(text@ =~= investigation_text(dm_mention_text(target, name@, discriminator), faction));
    text
}

/// One line of the morning's table, before it is made safe: the rank,
/// counted from one, and what is known of the player.
pub open spec fn row_text(index: int, row: TableRow) -> Seq<char> {
    match row {
        TableRow::Open { village, werewolves, dead } => decimal((index + 1) as nat) + ": "@
            + decimal(village as nat) + "% Dorf, "@ + decimal(werewolves as nat) + "% Werwolf, "@
            + decimal(dead as nat) + "% tot"@,
        TableRow::Dead(faction) => decimal((index + 1) as nat) + ": tot (war "@
            + faction_name_sg_text(faction, Case::Nom) + ")"@,
    }
}

/// The heading of the morning's table and its first `upto` lines.
pub open spec fn table_upto(table: Seq<TableRow>, upto: int) -> Seq<char>
    decreases upto,
{
    if upto <= 0 {
        "Die aktuelle Wahrscheinlichkeitsverteilung:"@
    } else {
        table_upto(table, upto - 1) + "\n"@ + safe_text(row_text(upto - 1, table[upto - 1]))
    }
}

/// The morning's table: a heading and one line for each player.
pub open spec fn table_text(table: Seq<TableRow>) -> Seq<char> {
    table_upto(table, table.len() as int)
}

fn table_row(index: usize, row: TableRow) -> (text: String)
    ensures
        text@ == row_text(index as int, row),
{
    let mut text = String::new();
    push_decimal(&mut text, index as u128 + 1);
    match row {
        TableRow::Open { village, werewolves, dead } => {
            text.append(": ");
            push_decimal(&mut text, village as u128);
            text.append("% Dorf, ");
            push_decimal(&mut text, werewolves as u128);
            text.append("% Werwolf, ");
            push_decimal(&mut text, dead as u128);
            text.append("% tot");
        },
        TableRow::Dead(faction) => {
            text.append(": tot (war ");
            text.append(faction_name_sg(faction, Case::Nom));
            text.append(")");
        },
    }
    assert(text@ =~= row_text(index as int, row));
    text
}

/// The morning's table: a heading and one line for each player.
pub fn probability_table(table: &Vec<TableRow>) -> (text: String)
    ensures
        text@ == table_text(table@),
{
    let mut text = String::new();
    text.append("Die aktuelle Wahrscheinlichkeitsverteilung:");
    assert(text@ =~= table_upto(table@, 0));
    let mut i: usize = 0;
    while i < table.len()
        invariant
            i <= table.len(),
            text@ == table_upto(table@, i as int),
        decreases table.len() - i,
    {
        text.append("\n");
        let row = table_row(i, table[i]);
        let safe = push_safe(row.as_str());
        text.append(safe.as_str());
        i += 1;
    }
    text
}

/// The number of votes that is more than half of `alive` voters.
pub open spec fn majority(alive: nat) -> nat {
    alive / 2 + 1
}

/// What is said when a day begins: that the discussion is open and how many
/// votes make a majority.
pub open spec fn day_text(alive: nat) -> Seq<char> {
    "Es wird Tag. Die Diskussion ist eröffnet. Absolute Mehrheit besteht aus "@ + safe_text(
        cardinal_text(majority(alive) as u64, Case::Dat, Gender::F),
    ) + if majority(alive) == 1 {
        " Stimme."@
    } else {
        " Stimmen."@
    }
}

/// What is said when a day begins: that the discussion is open and how many
/// votes make a majority.
pub fn day_breaks(alive: usize) -> (text: String)
    ensures
        text@ == day_text(alive as nat),
{
    let lynch_votes: u64 = (alive / 2) as u64 + 1;
    let mut text = String::new();
    text.append("Es wird Tag. Die Diskussion ist eröffnet. Absolute Mehrheit besteht aus ");
    let number = cardinal(lynch_votes, Case::Dat, Gender::F);
    let safe = push_safe(number.as_str());
    text.append(safe.as_str());
    if lynch_votes == 1 {
        text.append(" Stimme.");
    } else {
        text.append(" Stimmen.");
    }
    assert(text@ =~= day_text(alive as nat));
    text
}

/// The mentions of the winners from the second up to `upto`, each behind a
/// blank.
pub open spec fn more_winners(winners: Seq<u64>, upto: int) -> Seq<char>
    decreases upto,
{
    if upto <= 1 {
        Seq::empty()
    } else {
        more_winners(winners, upto - 1) + " "@ + mention_text(winners[upto - 1])
    }
}

/// The announcement of the end of the game and of who has won, in the order
/// of the list.
pub open spec fn winners_text(winners: Seq<u64>) -> Seq<char> {
    "das Spiel ist vorbei: "@ + if winners.len() == 0 {
        "niemand hat gewonnen"@
    } else if winners.len() == 1 {
        mention_text(winners[0]) + " hat gewonnen"@
    } else {
        mention_text(winners[0]) + more_winners(winners, winners.len() as int)
            + " haben gewonnen"@
    }
}

/// The announcement of the end of the game and of who has won, in the order
/// of the list.
pub fn game_over(winners: &Vec<u64>) -> (text: String)
    ensures
        text@ == winners_text(winners@),
{
    let mut text = String::new();
    text.append("das Spiel ist vorbei: ");
    if winners.len() == 0 {
        text.append("niemand hat gewonnen");
    } else if winners.len() == 1 {
        push_mention(&mut text, winners[0]);
        text.append(" hat gewonnen");
    } else {
        let mut list = String::new();
        push_mention(&mut list, winners[0]);
        let mut i: usize = 1;
        while i < winners.len()
            invariant
                1 <= i <= winners.len(),
                list@ == mention_text(winners@[0]) + more_winners(winners@, i as int),
            decreases winners.len() - i,
        {
            list.append(" ");
            push_mention(&mut list, winners[i]);
            i += 1;
            assert(list@ =~= mention_text(winners@[0]) + more_winners(winners@, i as int));
        }
        text.append(list.as_str());
        text.append(" haben gewonnen");
    }
    assert(text@ =~= winners_text(winners@));
    text
}

/// The two roles are of one kind: werewolves of any rank are.
pub open spec fn same_kind(a: Role, b: Role) -> bool {
    match (a, b) {
        (Role::Detective, Role::Detective) => true,
        (Role::Healer, Role::Healer) => true,
        (Role::Villager, Role::Villager) => true,
        (Role::Werewolf(_), Role::Werewolf(_)) => true,
        _ => false,
    }
}

/// The number of entries of `roles` that are of the kind of `kind`.
pub open spec fn holders(roles: Seq<Role>, kind: Role) -> nat
    decreases roles.len(),
{
    if roles.len() == 0 {
        0
    } else {
        holders(roles.drop_last(), kind) + if same_kind(roles.last(), kind) {
            1nat
        } else {
            0nat
        }
    }
}

/// How many players of one kind of role a game has: the number, then the
/// noun in the dative.
pub open spec fn role_phrase(kind: Role, count: nat) -> Seq<char> {
    cardinal_text(count as u64, Case::Dat, Gender::M) + " "@ + match kind {
        Role::Werewolf(_) => if count == 1 {
            "Werwolf"@
        } else {
            "Werwölfen"@
        },
        _ => role_name_text(kind, Case::Dat, count != 1),
    }
}

/// The phrase for a kind of role that the game has, nothing for another.
pub open spec fn phrase_if(kind: Role, count: nat) -> Seq<Seq<char>> {
    if count > 0 {
        seq![role_phrase(kind, count)]
    } else {
        Seq::empty()
    }
}

/// The villagers of a game: the players that `roles` leaves without a role
/// and those to whom it gives that of a villager.
pub open spec fn villagers(roles: Seq<Role>, num_players: nat) -> nat {
    (num_players - roles.len()) as nat + holders(roles, Role::Villager)
}

/// The kinds of role of a game with their numbers, in the order of their
/// names: detectives, villagers, healers, werewolves.
pub open spec fn role_phrases(roles: Seq<Role>, num_players: nat) -> Seq<Seq<char>> {
    phrase_if(Role::Detective, holders(roles, Role::Detective)) + phrase_if(
        Role::Villager,
        villagers(roles, num_players),
    ) + phrase_if(Role::Healer, holders(roles, Role::Healer)) + phrase_if(
        Role::Werewolf(0),
        holders(roles, Role::Werewolf(0)),
    )
}

/// What a healer is told that he can do.
pub open spec fn healer_text() -> Seq<char> {
    "Solange du noch lebst, kannst du jede Nacht einen lebenden Spieler deiner Wahl heilen ("@
        + mono_safe_text("heal <player>"@)
        + "). In allen Universen, in denen du lebst und Heiler bist, kann dieser Spieler in dieser Nacht nicht sterben. Du kannst keinen Spieler heilen, den du schon in der vorherigen Nacht geheilt hast.\n"@
}

/// What a detective is told that he can do.
pub open spec fn detective_text() -> Seq<char> {
    "Solange du noch lebst, kannst du jede Nacht einen Spieler deiner Wahl untersuchen ("@
        + mono_safe_text("investigate <player>"@)
        + "). Falls es mindestens ein Universum gibt, in dem du Detektiv bist, erfährst du die Partei dieses Spielers in einem zufälligen solchen Universum. Alle Universen, in denen du Detektiv bist und der Spieler nicht diese Partei hat, werden eliminiert.\n"@
}

/// What every player is told of the werewolves' kill and of the course of
/// the game.
pub open spec fn common_text() -> Seq<char> {
    "Solange du noch lebst, tötest du in jeder Nacht einen lebenden Spieler deiner Wahl ("@
        + mono_safe_text("kill <player>"@)
        + "). In allen Universen, in denen du der Werwolf mit der kleinsten Rangnummer unter den lebenden Werwölfen bist, stirbt dieser Spieler.\n"@
        + "Jeden Morgen wird öffentlich aber anonym dein Rollenrang sowie die relativen Häufigkeiten der Universen, in denen du zum Dorf gehörst, derer in denen du zu den Werwölfen gehörst, und derer in denen du tot bist angekündigt.\n"@
        + "Wenn du in allen Universen tot bist, stirbst du.\n"@
        + "Wenn du stirbst oder am Ende des Spiels wird aus den Universen, in denen du bis eben noch gelebt hast, ein zufälliges ausgewählt und du bekommst deine Identität aus diesem Universum. Alle anderen Quantenüberlagerungen verlieren diese Identität aus ihren Überlagerungen, und alle Universen, in denen du nicht diese Identität warst, werden eliminiert.\n"@
        + "Viel Spaß!"@
}

/// What a player is told in private when the game starts: the roles of the
/// game with their numbers, the player's rank, counted from one, and what
/// the roles of the game can do.
pub open spec fn role_dm_text(roles: Seq<Role>, num_players: nat, secret_id: nat) -> Seq<char> {
    "Willkommen bei Quantenwerwölfe!\n"@ + "Du bist eine "@ + bold_safe_text(
        "Quantenüberlagerung aus "@ + join_text(None, role_phrases(roles, num_players)),
    ) + "."@ + " Dein Rollenrang ist "@ + "**"@ + decimal(secret_id + 1) + "**"@ + "."@ + "\n"@
        + if holders(roles, Role::Healer) > 0 {
        healer_text()
    } else {
        Seq::empty()
    } + if holders(roles, Role::Detective) > 0 {
        detective_text()
    } else {
        Seq::empty()
    } + common_text()
}

proof fn lemma_holders(roles: Seq<Role>, kind: Role)
    ensures
        holders(roles, kind) <= roles.len(),
    decreases roles.len(),
{
    if roles.len() > 0 {
        lemma_holders(roles.drop_last(), kind);
    }
}

proof fn lemma_some_holder(roles: Seq<Role>)
    requires
        roles.len() > 0,
    ensures
        holders(roles, Role::Detective) + holders(roles, Role::Villager) + holders(
            roles,
            Role::Healer,
        ) + holders(roles, Role::Werewolf(0)) > 0,
{
}

fn role_count(roles: &Vec<Role>, kind: Role) -> (count: usize)
    ensures
        count == holders(roles@, kind),
{
    let mut count: usize = 0;
    let mut i: usize = 0;
    while i < roles.len()
        invariant
            i <= roles.len(),
            count == holders(roles@.take(i as int), kind),
            count <= i,
        decreases roles.len() - i,
    {
        assert(roles@.take(i as int + 1).drop_last() =~= roles@.take(i as int));
        let same = match (roles[i], kind) {
            (Role::Detective, Role::Detective) => true,
            (Role::Healer, Role::Healer) => true,
            (Role::Villager, Role::Villager) => true,
            (Role::Werewolf(_), Role::Werewolf(_)) => true,
            _ => false,
        };
        if same {
            count += 1;
        }
        i += 1;
    }
    assert(roles@.take(i as int) =~= roles@);
    count
}

fn push_phrase(phrases: &mut Vec<String>, kind: Role, count: usize)
    ensures
        views(final(phrases)@) == views(old(phrases)@) + phrase_if(kind, count as nat),
{
    if count > 0 {
        let mut phrase = cardinal(count as u64, Case::Dat, role_gender(kind));
        phrase.append(" ");
        match kind {
            Role::Werewolf(_) => {
                if count == 1 {
                    phrase.append("Werwolf");
                } else {
                    phrase.append("Werwölfen");
                }
            },
            _ => {
                let name = role_name(kind, Case::Dat, count != 1);
                phrase.append(name.as_str());
            },
        }
        assert(phrase@ =~= role_phrase(kind, count as nat));
        phrases.push(phrase);
        assert(views(final(phrases)@) =~= views(old(phrases)@) + phrase_if(kind, count as nat));
    } else {
        assert(views(final(phrases)@) =~= views(old(phrases)@) + phrase_if(kind, count as nat));
    }
}

/// What a player is told in private when the game starts: the roles of the
/// game with their numbers, the player's rank, counted from one, and what
/// the roles of the game can do. `roles` are the roles that were dealt; the
/// players that it leaves without one are villagers.
pub fn quantum_role_dm(roles: &Vec<Role>, num_players: usize, secret_id: usize) -> (text: String)
    requires
        roles@.len() <= num_players,
        num_players > 0,
    ensures
        text@ == role_dm_text(roles@, num_players as nat, secret_id as nat),
{
    let detectives = role_count(roles, Role::Detective);
    let healers = role_count(roles, Role::Healer);
    let werewolves = role_count(roles, Role::Werewolf(0));
    let villager_roles = role_count(roles, Role::Villager);
    proof {
        lemma_holders(roles@, Role::Villager);
        if roles@.len() > 0 {
            lemma_some_holder(roles@);
        }
    }
    let extra_villagers = num_players - roles.len();
    let all_villagers = extra_villagers + villager_roles;
    let mut phrases: Vec<String> = Vec::new();
    assert(views(phrases@) =~= Seq::<Seq<char>>::empty());
    push_phrase(&mut phrases, Role::Detective, detectives);
    push_phrase(&mut phrases, Role::Villager, all_villagers);
    push_phrase(&mut phrases, Role::Healer, healers);
    push_phrase(&mut phrases, Role::Werewolf(0), werewolves);
    assert(views(phrases@) =~= role_phrases(roles@, num_players as nat));
    assert(phrases@.len() == views(phrases@).len());
    let listing = join(None, phrases);
    let mut title = String::new();
    title.append("Quantenüberlagerung aus ");
    title.append(listing.as_str());
    assert(title@ =~= "Quantenüberlagerung aus "@ + join_text(
        None,
        role_phrases(roles@, num_players as nat),
    ));
    let bold = push_bold_safe(title.as_str());
    let mut text = String::new();
    text.append("Willkommen bei Quantenwerwölfe!\n");
    text.append("Du bist eine ");
    text.append(bold.as_str());
    text.append(".");
    text.append(" Dein Rollenrang ist ");
    text.append("**");
    push_decimal(&mut text, secret_id as u128 + 1);
    text.append("**");
    text.append(".");
    text.append("\n");
    if healers > 0 {
        let mut part = String::new();
        part.append(
            "Solange du noch lebst, kannst du jede Nacht einen lebenden Spieler deiner Wahl heilen (",
        );
        let mono = push_mono_safe("heal <player>");
        part.append(mono.as_str());
        part.append(
            "). In allen Universen, in denen du lebst und Heiler bist, kann dieser Spieler in dieser Nacht nicht sterben. Du kannst keinen Spieler heilen, den du schon in der vorherigen Nacht geheilt hast.\n",
        );
        assert(part@ =~= healer_text());
        text.append(part.as_str());
    }
    if detectives > 0 {
        let mut part = String::new();
        part.append(
            "Solange du noch lebst, kannst du jede Nacht einen Spieler deiner Wahl untersuchen (",
        );
        let mono = push_mono_safe("investigate <player>");
        part.append(mono.as_str());
        part.append(
            "). Falls es mindestens ein Universum gibt, in dem du Detektiv bist, erfährst du die Partei dieses Spielers in einem zufälligen solchen Universum. Alle Universen, in denen du Detektiv bist und der Spieler nicht diese Partei hat, werden eliminiert.\n",
        );
        assert(part@ =~= detective_text());
        text.append(part.as_str());
    }
    let mut part = String::new();
    part.append(
        "Solange du noch lebst, tötest du in jeder Nacht einen lebenden Spieler deiner Wahl (",
    );
    let mono = push_mono_safe("kill <player>");
    part.append(mono.as_str());
    part.append(
        "). In allen Universen, in denen du der Werwolf mit der kleinsten Rangnummer unter den lebenden Werwölfen bist, stirbt dieser Spieler.\n",
    );
    part.append(
        "Jeden Morgen wird öffentlich aber anonym dein Rollenrang sowie die relativen Häufigkeiten der Universen, in denen du zum Dorf gehörst, derer in denen du zu den Werwölfen gehörst, und derer in denen du tot bist angekündigt.\n",
    );
    part.append("Wenn du in allen Universen tot bist, stirbst du.\n");
    part.append(
        "Wenn du stirbst oder am Ende des Spiels wird aus den Universen, in denen du bis eben noch gelebt hast, ein zufälliges ausgewählt und du bekommst deine Identität aus diesem Universum. Alle anderen Quantenüberlagerungen verlieren diese Identität aus ihren Überlagerungen, und alle Universen, in denen du nicht diese Identität warst, werden eliminiert.\n",
    );
    part.append("Viel Spaß!");
    assert(part@ =~= common_text());
    text.append(part.as_str());
    assert(text@ =~= role_dm_text(roles@, num_players as nat, secret_id as nat));
    text
}

} // verus!
