//! The order in which players are named: by the name of the account, and
//! by its discriminator under one name.

use crate::text::{lemma_lex_total, lemma_lex_transitive, lex_less, same_text, text_less};
use vstd::prelude::*;

verus! {

/// A player as the others know him: the id, the name of the account and,
/// where the account still has one, its discriminator.
#[derive(Debug, Clone, PartialEq, Eq)]
pub struct PlayerName {
    pub id: u64,
    pub name: String,
    pub discriminator: Option<u16>,
}

/// What a player is listed under.
pub struct NameKey {
    pub name: Seq<char>,
    pub discriminator: Option<u16>,
}

/// The first discriminator is listed before the second: none before any,
/// and the lesser number before the greater.
pub open spec fn number_before(a: Option<u16>, b: Option<u16>) -> bool {
    match (a, b) {
        (None, Some(_)) => true,
        (Some(x), Some(y)) => x < y,
        _ => false,
    }
}

/// The first key is listed before the second: by name, and by
/// discriminator under one name.
pub open spec fn key_before(a: NameKey, b: NameKey) -> bool {
    lex_less(a.name, b.name) || (a.name == b.name && number_before(
        a.discriminator,
        b.discriminator,
    ))
}

/// What the player with this id is listed under: what the first entry for
/// the id says; the empty name without discriminator where there is none.
pub open spec fn key_of(names: Seq<PlayerName>, id: u64) -> NameKey
    decreases names.len(),
{
    if names.len() == 0 {
        NameKey { name: Seq::empty(), discriminator: None }
    } else if names[0].id == id {
        NameKey { name: names[0].name@, discriminator: names[0].discriminator }
    } else {
        key_of(names.drop_first(), id)
    }
}

/// The player `a` is listed before the player `b`.
pub open spec fn listed_before(names: Seq<PlayerName>, a: u64, b: u64) -> bool {
    key_before(key_of(names, a), key_of(names, b))
}

/// No player of the list is listed before an earlier one.
pub open spec fn in_name_order(names: Seq<PlayerName>, list: Seq<u64>) -> bool {
    forall|i: int, j: int| 0 <= i < j < list.len() ==> !listed_before(names, list[j], list[i])
}

/// `who` put into the list that is in the order of the names, behind the
/// players who are not listed after him.
pub open spec fn seated(names: Seq<PlayerName>, list: Seq<u64>, who: u64) -> Seq<u64>
    decreases list.len(),
{
    if list.len() == 0 {
        seq![who]
    } else if !listed_before(names, who, list.last()) {
        list.push(who)
    } else {
        seated(names, list.drop_last(), who).push(list.last())
    }
}

/// The players in the order of their names; players who are listed under
/// the same name and discriminator keep the order that they came in.
pub open spec fn by_name(names: Seq<PlayerName>, list: Seq<u64>) -> Seq<u64>
    decreases list.len(),
{
    if list.len() == 0 {
        Seq::empty()
    } else {
        seated(names, by_name(names, list.drop_last()), list.last())
    }
}

/// Being listed before is an order: nobody is listed before himself or
/// before somebody who is listed before him, and who is not listed after
/// somebody who is not listed after a third is not listed after the third.
pub proof fn lemma_key_order(a: NameKey, b: NameKey, c: NameKey)
    ensures
        !key_before(a, a),
        key_before(a, b) ==> !key_before(b, a),
        !key_before(b, a) && !key_before(c, b) ==> !key_before(c, a),
{
    lemma_lex_total(a.name, a.name);
    lemma_lex_total(a.name, b.name);
    lemma_lex_total(b.name, c.name);
    lemma_lex_total(a.name, c.name);
    if lex_less(c.name, a.name) {
        if lex_less(a.name, b.name) {
            lemma_lex_transitive(c.name, a.name, b.name);
        }
        if lex_less(b.name, c.name) {
            lemma_lex_transitive(b.name, c.name, a.name);
        }
    }
}

proof fn lemma_seated(names: Seq<PlayerName>, list: Seq<u64>, who: u64)
    ensures
        seated(names, list, who).len() == list.len() + 1,
        seated(names, list, who).to_multiset() == list.to_multiset().insert(who),
        forall|x: u64| #[trigger]
            seated(names, list, who).contains(x) <==> (x == who || list.contains(x)),
        in_name_order(names, list) ==> in_name_order(names, seated(names, list, who)),
    decreases list.len(),
{
    broadcast use vstd::seq_lib::group_to_multiset_ensures;

    let r = seated(names, list, who);
    if list.len() == 0 {
        assert(r =~= Seq::<u64>::empty().push(who));
        assert(list =~= Seq::<u64>::empty());
        assert(r[0] == who);
    } else if !listed_before(names, who, list.last()) {
        assert forall|x: u64| #[trigger] r.contains(x) <==> (x == who || list.contains(x)) by {
            if r.contains(x) {
                let i = choose|i: int| 0 <= i < r.len() && r[i] == x;
                if i < list.len() {
                    assert(list[i] == x);
                }
            }
            if x == who {
                assert(r[list.len() as int] == x);
            }
            if list.contains(x) {
                let i = choose|i: int| 0 <= i < list.len() && list[i] == x;
                assert(r[i] == x);
            }
        }
        if in_name_order(names, list) {
            assert forall|i: int, j: int| 0 <= i < j < r.len() implies !listed_before(
                names,
                r[j],
                r[i],
            ) by {
                if j == list.len() {
                    if i < list.len() - 1 {
                        assert(!listed_before(names, list[list.len() - 1], list[i]));
                    }
                    lemma_key_order(
                        key_of(names, list[i]),
                        key_of(names, list.last()),
                        key_of(names, who),
                    );
                } else {
                    assert(!listed_before(names, list[j], list[i]));
                }
            }
        }
    } else {
        let head = list.drop_last();
        let inner = seated(names, head, who);
        lemma_seated(names, head, who);
        assert(list =~= head.push(list.last()));
        assert(r.to_multiset() =~= list.to_multiset().insert(who));
        assert forall|x: u64| #[trigger] r.contains(x) <==> (x == who || list.contains(x)) by {
            if r.contains(x) {
                let i = choose|i: int| 0 <= i < r.len() && r[i] == x;
                if i < inner.len() {
                    assert(inner[i] == x);
                    assert(inner.contains(x));
                    if head.contains(x) {
                        let k = choose|k: int| 0 <= k < head.len() && head[k] == x;
                        assert(list[k] == x);
                    }
                } else {
                    assert(list[list.len() - 1] == x);
                }
            }
            if x == who {
                assert(inner.contains(x));
                let i = choose|i: int| 0 <= i < inner.len() && inner[i] == x;
                assert(r[i] == x);
            }
            if list.contains(x) {
                let i = choose|i: int| 0 <= i < list.len() && list[i] == x;
                if i < head.len() {
                    assert(head[i] == x);
                    assert(head.contains(x));
                    assert(inner.contains(x));
                    let k = choose|k: int| 0 <= k < inner.len() && inner[k] == x;
                    assert(r[k] == x);
                } else {
                    assert(r[inner.len() as int] == x);
                }
            }
        }
        if in_name_order(names, list) {
            assert(in_name_order(names, head)) by {
                assert forall|i: int, j: int| 0 <= i < j < head.len() implies !listed_before(
                    names,
                    head[j],
                    head[i],
                ) by {
                    assert(!listed_before(names, list[j], list[i]));
                }
            }
            assert forall|i: int, j: int| 0 <= i < j < r.len() implies !listed_before(
                names,
                r[j],
                r[i],
            ) by {
                if j < inner.len() {
                    assert(!listed_before(names, inner[j], inner[i]));
                } else {
                    assert(inner[i] == r[i]);
                    assert(inner.contains(inner[i]));
                    if inner[i] == who {
                        lemma_key_order(
                            key_of(names, who),
                            key_of(names, list.last()),
                            key_of(names, who),
                        );
                    } else {
                        assert(head.contains(inner[i]));
                        let k = choose|k: int| 0 <= k < head.len() && head[k] == inner[i];
                        assert(!listed_before(names, list[list.len() - 1], list[k]));
                    }
                }
            }
        }
    }
}

/// The list in the order of the names holds each player as often as the
/// list that it was made from, and nobody in it is listed before an
/// earlier one.
pub proof fn lemma_by_name(names: Seq<PlayerName>, list: Seq<u64>)
    ensures
        by_name(names, list).len() == list.len(),
        by_name(names, list).to_multiset() == list.to_multiset(),
        forall|x: u64| #[trigger] by_name(names, list).contains(x) <==> list.contains(x),
        in_name_order(names, by_name(names, list)),
        list.no_duplicates() ==> by_name(names, list).no_duplicates(),
    decreases list.len(),
{
    broadcast use vstd::seq_lib::group_to_multiset_ensures;

    let r = by_name(names, list);
    if list.len() == 0 {
        assert(list =~= Seq::<u64>::empty());
    } else {
        let head = list.drop_last();
        lemma_by_name(names, head);
        lemma_seated(names, by_name(names, head), list.last());
        assert(list =~= head.push(list.last()));
        assert(r.to_multiset() =~= list.to_multiset());
        assert forall|x: u64| #[trigger] r.contains(x) <==> list.contains(x) by {
            if list.contains(x) {
                let i = choose|i: int| 0 <= i < list.len() && list[i] == x;
                if i < head.len() {
                    assert(head[i] == x);
                    assert(head.contains(x));
                }
            }
            if head.contains(x) {
                let i = choose|i: int| 0 <= i < head.len() && head[i] == x;
                assert(list[i] == x);
            }
            if x == list.last() {
                assert(list[list.len() - 1] == x);
            }
        }
    }
    if list.no_duplicates() {
        list.lemma_multiset_has_no_duplicates();
        r.lemma_multiset_has_no_duplicates_conv();
    }
}

/// The place of the first entry for the id among the names.
fn find_name(names: &Vec<PlayerName>, id: u64) -> (at: Option<usize>)
    ensures
        match at {
            Some(at) => at < names@.len() && key_of(names@, id) == (NameKey {
                name: names@[at as int].name@,
                discriminator: names@[at as int].discriminator,
            }),
            None => key_of(names@, id) == (NameKey { name: Seq::empty(), discriminator: None }),
        },
{
    let mut i: usize = 0;
    assert(names@.skip(0) =~= names@);
    while i < names.len()
        invariant
            i <= names.len(),
            key_of(names@, id) == key_of(names@.skip(i as int), id),
        decreases names.len() - i,
    {
        assert(names@.skip(i as int)[0] == names@[i as int]);
        if names[i].id == id {
            return Some(i);
        }
        assert(names@.skip(i as int).drop_first() =~= names@.skip(i as int + 1));
        i += 1;
    }
    None
}

/// Whether the player `a` is listed before the player `b`.
pub fn comes_before(names: &Vec<PlayerName>, a: u64, b: u64) -> (yes: bool)
    ensures
        yes == listed_before(names@, a, b),
{
    let empty = "";
    proof {
        reveal_strlit("");
        assert(empty@ =~= Seq::<char>::empty());
    }
    let (name_a, number_a) = match find_name(names, a) {
        Some(at) => (names[at].name.as_str(), names[at].discriminator),
        None => (empty, None),
    };
    let (name_b, number_b) = match find_name(names, b) {
        Some(at) => (names[at].name.as_str(), names[at].discriminator),
        None => (empty, None),
    };
    if text_less(name_a, name_b) {
        return true;
    }
    if !same_text(name_a, name_b) {
        return false;
    }
    match (number_a, number_b) {
        (None, Some(_)) => true,
        (Some(x), Some(y)) => x < y,
        _ => false,
    }
}

/// The players in the order of their names, and by discriminator under one
/// name: each as often as the list holds him, and nobody before somebody
/// whom he is listed after. Players who are listed in the same place keep
/// the order of the list.
pub fn order_by_name(list: &Vec<u64>, names: &Vec<PlayerName>) -> (out: Vec<u64>)
    ensures
        out@ == by_name(names@, list@),
        out@.to_multiset() == list@.to_multiset(),
        in_name_order(names@, out@),
{
    let mut out: Vec<u64> = Vec::new();
    let mut i: usize = 0;
    while i < list.len()
        invariant
            i <= list.len(),
            out@ == by_name(names@, list@.take(i as int)),
        decreases list.len() - i,
    {
        let who = list[i];
        let mut at: usize = out.len();
        while at > 0 && comes_before(names, who, out[at - 1])
            invariant
                at <= out.len(),
                forall|j: int| at <= j < out.len() ==> listed_before(names@, who, out@[j]),
            decreases at,
        {
            at -= 1;
        }
        proof {
            lemma_seated_at(names@, out@, who, at as int);
            assert(list@.take(i as int + 1).drop_last() =~= list@.take(i as int));
        }
        out.insert(at, who);
        i += 1;
    }
    proof {
        assert(list@.take(i as int) =~= list@);
        lemma_by_name(names@, list@);
    }
    out
}

proof fn lemma_seated_at(names: Seq<PlayerName>, list: Seq<u64>, who: u64, at: int)
    requires
        0 <= at <= list.len(),
        at > 0 ==> !listed_before(names, who, list[at - 1]),
        forall|j: int| at <= j < list.len() ==> listed_before(names, who, list[j]),
    ensures
        seated(names, list, who) == list.insert(at, who),
    decreases list.len() - at,
{
    if list.len() == 0 {
        assert(list.insert(at, who) =~= seq![who]);
    } else if at == list.len() {
        assert(list.insert(at, who) =~= list.push(who));
    } else {
        lemma_seated_at(names, list.drop_last(), who, at);
        assert(list.drop_last().insert(at, who).push(list.last()) =~= list.insert(at, who));
    }
}

} // verus!
