use peter::werewolf::messages::{
    day_breaks, death_notice, discussion_closed, dm_mention, game_over, investigation_result,
    night_falls, probability_table, push_mention, quantum_role_dm, role_of, starting_soon,
};
use peter::werewolf::rules::{Faction, Role, TableRow};

#[test]
fn a_mention_is_the_id_in_angle_brackets() {
    let mut out = String::new();
    push_mention(&mut out, 86841168427495424);
    assert_eq!(out, "<@86841168427495424>");
}

#[test]
fn dm_mention_adds_the_name_and_four_digits() {
    assert_eq!(dm_mention(5, "peter", Some(42)), "<@5> (peter#0042)");
    assert_eq!(dm_mention(5, "peter", None), "<@5> (@peter)");
}

#[test]
fn dm_mention_escapes_the_name() {
    assert_eq!(dm_mention(5, "a_b*c", Some(1234)), "<@5> (a\\_b\\*c#1234)");
}

#[test]
fn role_of_finds_the_first_entry() {
    let revealed = vec![(1, Role::Healer), (2, Role::Detective), (1, Role::Villager)];
    assert_eq!(role_of(&revealed, 1), Some(Role::Healer));
    assert_eq!(role_of(&revealed, 2), Some(Role::Detective));
    assert_eq!(role_of(&revealed, 3), None);
}

#[test]
fn death_notice_names_each_dead_player_with_the_known_role() {
    let revealed = vec![(7, Role::Detective), (9, Role::Werewolf(1))];
    assert_eq!(
        death_notice(&vec![7, 8, 9], &revealed),
        "<@7> ist tot und war Detektiv. <@8> ist tot. <@9> ist tot und war Werwolf (Rollenrang 2)."
    );
    assert_eq!(death_notice(&vec![8], &revealed), "<@8> ist tot.");
    assert_eq!(death_notice(&vec![], &revealed), "");
}

#[test]
fn fixed_announcements_have_their_text() {
    assert_eq!(discussion_closed(), "Die Diskussion ist geschlossen.");
    assert_eq!(
        night_falls(),
        "Es wird Nacht. Bitte schickt mir innerhalb der nächsten 3 Minuten eure Nachtaktionen."
    );
    assert_eq!(starting_soon(), "das Spiel startet in einer Minute");
}

#[test]
fn investigation_result_names_the_side() {
    assert_eq!(
        investigation_result(3, "eve", Some(7), Faction::Village),
        "Ergebnis deiner Nachtaktion: <@3> (eve#0007) gehört zum Dorf"
    );
    assert_eq!(
        investigation_result(3, "eve", None, Faction::Werewolves),
        "Ergebnis deiner Nachtaktion: <@3> (@eve) gehört zu den Werwölfen"
    );
}

#[test]
fn probability_table_has_one_line_for_each_player() {
    let table = vec![
        TableRow::Open { village: 60, werewolves: 30, dead: 10 },
        TableRow::Dead(Faction::Werewolves),
        TableRow::Dead(Faction::Village),
        TableRow::Open { village: 0, werewolves: 100, dead: 0 },
    ];
    assert_eq!(
        probability_table(&table),
        "Die aktuelle Wahrscheinlichkeitsverteilung:\n1: 60% Dorf, 30% Werwolf, 10% tot\n2: tot (war Werwolf)\n3: tot (war Dorf)\n4: 0% Dorf, 100% Werwolf, 0% tot"
    );
    assert_eq!(probability_table(&vec![]), "Die aktuelle Wahrscheinlichkeitsverteilung:");
}

#[test]
fn day_breaks_tells_the_majority() {
    assert_eq!(
        day_breaks(5),
        "Es wird Tag. Die Diskussion ist eröffnet. Absolute Mehrheit besteht aus 3 Stimmen."
    );
    assert_eq!(
        day_breaks(6),
        "Es wird Tag. Die Diskussion ist eröffnet. Absolute Mehrheit besteht aus 4 Stimmen."
    );
    assert_eq!(
        day_breaks(1),
        "Es wird Tag. Die Diskussion ist eröffnet. Absolute Mehrheit besteht aus einer Stimme."
    );
    assert_eq!(
        day_breaks(0),
        "Es wird Tag. Die Diskussion ist eröffnet. Absolute Mehrheit besteht aus einer Stimme."
    );
    assert_eq!(
        day_breaks(2),
        "Es wird Tag. Die Diskussion ist eröffnet. Absolute Mehrheit besteht aus 2 Stimmen."
    );
}

#[test]
fn game_over_names_the_winners() {
    assert_eq!(game_over(&vec![]), "das Spiel ist vorbei: niemand hat gewonnen");
    assert_eq!(game_over(&vec![4]), "das Spiel ist vorbei: <@4> hat gewonnen");
    assert_eq!(game_over(&vec![4, 5, 6]), "das Spiel ist vorbei: <@4> <@5> <@6> haben gewonnen");
}

const COMMON: &str = "Solange du noch lebst, tötest du in jeder Nacht einen lebenden Spieler deiner Wahl (`kill <player>`). In allen Universen, in denen du der Werwolf mit der kleinsten Rangnummer unter den lebenden Werwölfen bist, stirbt dieser Spieler.\nJeden Morgen wird öffentlich aber anonym dein Rollenrang sowie die relativen Häufigkeiten der Universen, in denen du zum Dorf gehörst, derer in denen du zu den Werwölfen gehörst, und derer in denen du tot bist angekündigt.\nWenn du in allen Universen tot bist, stirbst du.\nWenn du stirbst oder am Ende des Spiels wird aus den Universen, in denen du bis eben noch gelebt hast, ein zufälliges ausgewählt und du bekommst deine Identität aus diesem Universum. Alle anderen Quantenüberlagerungen verlieren diese Identität aus ihren Überlagerungen, und alle Universen, in denen du nicht diese Identität warst, werden eliminiert.\nViel Spaß!";

const HEALER: &str = "Solange du noch lebst, kannst du jede Nacht einen lebenden Spieler deiner Wahl heilen (`heal <player>`). In allen Universen, in denen du lebst und Heiler bist, kann dieser Spieler in dieser Nacht nicht sterben. Du kannst keinen Spieler heilen, den du schon in der vorherigen Nacht geheilt hast.\n";

const DETECTIVE: &str = "Solange du noch lebst, kannst du jede Nacht einen Spieler deiner Wahl untersuchen (`investigate <player>`). Falls es mindestens ein Universum gibt, in dem du Detektiv bist, erfährst du die Partei dieses Spielers in einem zufälligen solchen Universum. Alle Universen, in denen du Detektiv bist und der Spieler nicht diese Partei hat, werden eliminiert.\n";

#[test]
fn role_dm_lists_the_roles_in_the_order_of_their_names() {
    let roles = vec![Role::Werewolf(0), Role::Werewolf(1), Role::Detective, Role::Healer];
    let expected = format!(
        "Willkommen bei Quantenwerwölfe!\nDu bist eine **Quantenüberlagerung aus einem Detektiv, 2 Dorfbewohnern, einem Heiler und 2 Werwölfen**. Dein Rollenrang ist **3**.\n{}{}{}",
        HEALER, DETECTIVE, COMMON
    );
    assert_eq!(quantum_role_dm(&roles, 6, 2), expected);
}

#[test]
fn role_dm_leaves_out_what_the_game_does_not_have() {
    let roles = vec![Role::Werewolf(0), Role::Detective];
    let expected = format!(
        "Willkommen bei Quantenwerwölfe!\nDu bist eine **Quantenüberlagerung aus einem Detektiv, einem Dorfbewohner und einem Werwolf**. Dein Rollenrang ist **1**.\n{}{}",
        DETECTIVE, COMMON
    );
    assert_eq!(quantum_role_dm(&roles, 3, 0), expected);
}

#[test]
fn role_dm_of_villagers_only() {
    let expected = format!(
        "Willkommen bei Quantenwerwölfe!\nDu bist eine **Quantenüberlagerung aus 4 Dorfbewohnern**. Dein Rollenrang ist **4**.\n{}",
        COMMON
    );
    assert_eq!(quantum_role_dm(&vec![], 4, 3), expected);
}

#[test]
fn role_dm_counts_villager_roles_with_the_players_without_role() {
    let roles = vec![Role::Villager, Role::Healer];
    let expected = format!(
        "Willkommen bei Quantenwerwölfe!\nDu bist eine **Quantenüberlagerung aus 2 Dorfbewohnern und einem Heiler**. Dein Rollenrang ist **2**.\n{}{}",
        HEALER, COMMON
    );
    assert_eq!(quantum_role_dm(&roles, 3, 1), expected);
}
