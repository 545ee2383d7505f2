//! Ballots of a day and their tally.

use std::collections::HashMap;
use vstd::prelude::*;
use vstd::std_specs::iter::IteratorSpec;

verus! {

broadcast use vstd::std_specs::hash::group_hash_axioms;

/// What a participant can vote for during the day.
#[derive(Debug, Clone, Copy, PartialEq, Eq, Hash, Structural)]
pub enum Vote {
    /// Lynch this participant.
    Player(u64),
    /// Lynch nobody.
    NoLynch,
}

/// What a day ends with.
#[derive(Debug, Clone, Copy, PartialEq, Eq, Structural)]
pub enum Resolution {
    /// This participant is lynched.
    Lynch(u64),
    /// Nobody is lynched.
    NoLynch,
}

/// The voters whose ballot is `choice`.
pub open spec fn supporters(votes: Map<u64, Vote>, choice: Vote) -> Set<u64> {
    votes.dom().filter(|voter: u64| votes[voter] == choice)
}

/// The number of voters whose ballot is `choice`.
pub open spec fn votes_for(votes: Map<u64, Vote>, choice: Vote) -> nat {
    supporters(votes, choice).len()
}

/// `max` is the highest number of ballots that any choice has and `leaders`
/// are exactly the choices that reach it. With no ballot at all `max` is 0
/// and nothing leads.
pub open spec fn is_tally(votes: Map<u64, Vote>, max: nat, leaders: Set<Vote>) -> bool {
    &&& forall|c: Vote| #[trigger] votes_for(votes, c) <= max
    &&& forall|c: Vote| #[trigger] leaders.contains(c) <==> (max > 0 && votes_for(votes, c) == max)
    &&& (max > 0 ==> exists|c: Vote| #[trigger] votes_for(votes, c) == max)
}

/// No choice has more ballots than `choice`, which has at least one.
pub open spec fn leads(votes: Map<u64, Vote>, choice: Vote) -> bool {
    votes_for(votes, choice) > 0 && forall|other: Vote| #[trigger]
        votes_for(votes, other) <= votes_for(votes, choice)
}

/// The choices that lead: several where they tie, none without ballots.
pub open spec fn leaders(votes: Map<u64, Vote>) -> Set<Vote> {
    Set::new(|choice: Vote| leads(votes, choice))
}

/// The number of ballots that a leading choice has; 0 without ballots.
pub open spec fn top(votes: Map<u64, Vote>) -> nat {
    if exists|choice: Vote| leads(votes, choice) {
        votes_for(votes, choose|choice: Vote| leads(votes, choice))
    } else {
        0
    }
}

/// What a choice means for the day.
pub open spec fn effect_of(choice: Vote) -> Resolution {
    match choice {
        Vote::Player(target) => Resolution::Lynch(target),
        Vote::NoLynch => Resolution::NoLynch,
    }
}

/// The choice that the listed leaders settle on: a single leading choice
/// decides, anything else (no ballots, a tie) lynches nobody.
pub open spec fn outcome(leaders: Seq<Vote>) -> Resolution {
    if leaders.len() == 1 {
        effect_of(leaders[0])
    } else {
        Resolution::NoLynch
    }
}

/// What the ballots settle on: a single leading choice decides, anything
/// else (no ballots, a tie) lynches nobody.
pub open spec fn verdict(votes: Map<u64, Vote>) -> Resolution {
    if leaders(votes).len() == 1 {
        effect_of(leaders(votes).choose())
    } else {
        Resolution::NoLynch
    }
}

/// One choice leads alone, with the ballots of more than half of `alive`
/// voters.
pub open spec fn has_majority(votes: Map<u64, Vote>, alive: nat) -> bool {
    top(votes) > alive / 2 && leaders(votes).len() == 1
}

/// The number of entries of `list` whose ballot is `choice`.
pub open spec fn ballots_for(list: Seq<(u64, Vote)>, choice: Vote) -> nat
    decreases list.len(),
{
    if list.len() == 0 {
        0
    } else {
        ballots_for(list.drop_last(), choice) + if list.last().1 == choice {
            1nat
        } else {
            0nat
        }
    }
}

/// `list` holds each entry of `votes` once and nothing else.
pub open spec fn lists_map(list: Seq<(u64, Vote)>, votes: Map<u64, Vote>) -> bool {
    &&& forall|i: int, j: int|
        0 <= i < j < list.len() ==> (#[trigger] list[i]).0 != (#[trigger] list[j]).0
    &&& forall|i: int|
        0 <= i < list.len() ==> votes.contains_key((#[trigger] list[i]).0) && votes[list[i].0]
            == list[i].1
    &&& forall|k: u64| #[trigger]
        votes.contains_key(k) ==> exists|i: int| 0 <= i < list.len() && (#[trigger] list[i]).0 == k
}

/// `choice` has an entry in the list of counts.
spec fn counted(counts: Seq<(Vote, usize)>, choice: Vote) -> bool {
    exists|j: int| 0 <= j < counts.len() && (#[trigger] counts[j]).0 == choice
}

proof fn lemma_ballots_bound(list: Seq<(u64, Vote)>, choice: Vote)
    ensures
        ballots_for(list, choice) <= list.len(),
    decreases list.len(),
{
    if list.len() > 0 {
        lemma_ballots_bound(list.drop_last(), choice);
    }
}

proof fn lemma_ballots_step(list: Seq<(u64, Vote)>, i: int, choice: Vote)
    requires
        0 <= i < list.len(),
    ensures
        ballots_for(list.take(i + 1), choice) == ballots_for(list.take(i), choice) + if list[i].1
            == choice {
            1nat
        } else {
            0nat
        },
{
    assert(list.take(i + 1).drop_last() =~= list.take(i));
}

/// Counting over a list of the entries gives what counting over the map gives.
proof fn lemma_list_counts(list: Seq<(u64, Vote)>, votes: Map<u64, Vote>, choice: Vote)
    requires
        lists_map(list, votes),
        votes.dom().finite(),
    ensures
        votes_for(votes, choice) == ballots_for(list, choice),
    decreases list.len(),
{
    if list.len() == 0 {
        assert forall|voter: u64| !supporters(votes, choice).contains(voter) by {
            if votes.contains_key(voter) {
                let i = choose|i: int| 0 <= i < list.len() && (#[trigger] list[i]).0 == voter;
            }
        }
        assert(supporters(votes, choice) =~= Set::<u64>::empty());
    } else {
        let last = list.last();
        let rest = list.drop_last();
        let fewer = votes.remove(last.0);
        assert(lists_map(rest, fewer)) by {
            assert forall|k: u64| #[trigger] fewer.contains_key(k) implies exists|i: int|
                0 <= i < rest.len() && (#[trigger] rest[i]).0 == k by {
                assert(votes.contains_key(k));
                let i = choose|i: int| 0 <= i < list.len() && (#[trigger] list[i]).0 == k;
                assert(i < rest.len());
                assert(rest[i] == list[i]);
            }
            assert forall|i: int| 0 <= i < rest.len() implies fewer.contains_key(
                (#[trigger] rest[i]).0,
            ) && fewer[rest[i].0] == rest[i].1 by {
                assert(rest[i] == list[i]);
                assert(list[i].0 != list[list.len() - 1].0);
            }
            assert forall|i: int, j: int| 0 <= i < j < rest.len() implies (#[trigger] rest[i]).0 != (
            #[trigger] rest[j]).0 by {
                assert(rest[i] == list[i]);
                assert(rest[j] == list[j]);
            }
        }
        lemma_list_counts(rest, fewer, choice);
        fewer.dom().lemma_len_filter(|voter: u64| fewer[voter] == choice);
        assert(votes.contains_key(list[list.len() - 1].0));
        if last.1 == choice {
            assert(supporters(votes, choice) =~= supporters(fewer, choice).insert(last.0));
        } else {
            assert(supporters(votes, choice) =~= supporters(fewer, choice));
        }
    }
}

/// A tally is the top count and the leaders of the ballots.
pub proof fn lemma_tally_exact(votes: Map<u64, Vote>, max: nat, leading: Set<Vote>)
    requires
        is_tally(votes, max, leading),
    ensures
        max == top(votes),
        leading == leaders(votes),
{
    assert forall|c: Vote| leading.contains(c) <==> leads(votes, c) by {
        if leads(votes, c) {
            if max > 0 {
                let d = choose|d: Vote| #[trigger] votes_for(votes, d) == max;
                assert(votes_for(votes, d) <= votes_for(votes, c));
            }
            assert(votes_for(votes, c) <= max);
        }
        if leading.contains(c) {
            assert(votes_for(votes, c) == max);
        }
    }
    assert(leading =~= leaders(votes));
    if exists|c: Vote| leads(votes, c) {
        let c = choose|c: Vote| leads(votes, c);
        assert(leading.contains(c));
    } else {
        if max > 0 {
            let d = choose|d: Vote| #[trigger] votes_for(votes, d) == max;
            assert(leading.contains(d));
            assert(leads(votes, d));
        }
    }
}

/// The leaders in a list without repetition settle what the ballots settle,
/// and they are as many as lead.
pub proof fn lemma_listed_leaders(votes: Map<u64, Vote>, list: Seq<Vote>)
    requires
        list.no_duplicates(),
        list.to_set() == leaders(votes),
    ensures
        leaders(votes).finite(),
        leaders(votes).len() == list.len(),
        outcome(list) == verdict(votes),
{
    list.unique_seq_to_set();
    if list.len() == 1 {
        let only = leaders(votes).choose();
        assert(list.to_set().contains(list[0]));
        assert(leaders(votes).contains(only));
        assert(list.contains(only));
    }
}

/// Two tallies of the same ballots are the same tally.
pub proof fn lemma_tally_unique(
    votes: Map<u64, Vote>,
    max1: nat,
    leaders1: Set<Vote>,
    max2: nat,
    leaders2: Set<Vote>,
)
    requires
        is_tally(votes, max1, leaders1),
        is_tally(votes, max2, leaders2),
    ensures
        max1 == max2,
        leaders1 == leaders2,
{
    if max1 > 0 {
        let c = choose|c: Vote| #[trigger] votes_for(votes, c) == max1;
        assert(votes_for(votes, c) <= max2);
    }
    if max2 > 0 {
        let c = choose|c: Vote| #[trigger] votes_for(votes, c) == max2;
        assert(votes_for(votes, c) <= max1);
    }
    assert(leaders1 =~= leaders2);
}

/// The entries of the map, each once, in the order in which the map hands
/// them out.
fn ballots(votes: &HashMap<u64, Vote>) -> (list: Vec<(u64, Vote)>)
    ensures
        lists_map(list@, votes@),
{
    let mut list: Vec<(u64, Vote)> = Vec::new();
    let ghost order = votes.iter().remaining();
    for pair in it: votes.iter()
        invariant
            it.seq() == order,
            list@.len() == it.index(),
            forall|i: int|
                0 <= i < list@.len() ==> (#[trigger] list@[i]) == (*order[i].0, *order[i].1),
    {
        let (voter, vote) = pair;
        list.push((*voter, *vote));
    }
    proof {
        let s = list@;
        assert(s.len() == order.len());
        assert forall|k: u64| #[trigger] votes@.contains_key(k) implies exists|i: int|
            0 <= i < s.len() && (#[trigger] s[i]).0 == k by {
            let p = (&k, &votes@[k]);
            assert(order.contains(p));
            let i = choose|i: int| 0 <= i < order.len() && order[i] == p;
            assert(s[i].0 == k);
        }
        assert forall|i: int| 0 <= i < s.len() implies votes@.contains_key((#[trigger] s[i]).0)
            && votes@[s[i].0] == s[i].1 by {
            assert(votes@.contains_key(*order[i].0));
        }
        assert forall|i: int, j: int| 0 <= i < j < s.len() implies (#[trigger] s[i]).0 != (
        #[trigger] s[j]).0 by {
            assert(votes@.contains_key(*order[i].0));
            assert(votes@.contains_key(*order[j].0));
            if s[i].0 == s[j].0 {
                assert(order[i] == order[j]);
            }
        }
    }
    list
}

/// The highest number of ballots that one choice has, and the choices that
/// have that many. A tie keeps every leading choice; with no ballot at all
/// the count is 0 and no choice leads.
pub fn tally(votes: &HashMap<u64, Vote>) -> (result: (usize, Vec<Vote>))
    ensures
        result.0 == top(votes@),
        result.1@.to_set() == leaders(votes@),
        result.1@.no_duplicates(),
        is_tally(votes@, result.0 as nat, result.1@.to_set()),
{
    let list = ballots(votes);
    let mut counts: Vec<(Vote, usize)> = Vec::new();
    let mut i: usize = 0;
    while i < list.len()
        invariant
            i <= list.len(),
            forall|j: int|
                0 <= j < counts@.len() ==> (#[trigger] counts@[j]).1 == ballots_for(
                    list@.take(i as int),
                    counts@[j].0,
                ) && counts@[j].1 >= 1,
            forall|j: int, k: int|
                0 <= j < k < counts@.len() ==> (#[trigger] counts@[j]).0 != (#[trigger] counts@[k]).0,
            forall|c: Vote|
                !counted(counts@, c) ==> #[trigger] ballots_for(list@.take(i as int), c) == 0,
        decreases list.len() - i,
    {
        let vote = list[i].1;
        let mut j: usize = 0;
        while j < counts.len() && counts[j].0 != vote
            invariant
                j <= counts.len(),
                forall|k: int| 0 <= k < j ==> (#[trigger] counts@[k]).0 != vote,
            decreases counts.len() - j,
        {
            j += 1;
        }
        proof {
            assert forall|c: Vote| true implies #[trigger] ballots_for(
                list@.take(i as int + 1),
                c,
            ) == ballots_for(list@.take(i as int), c) + if vote == c {
                1nat
            } else {
                0nat
            } by {
                lemma_ballots_step(list@, i as int, c);
            }
            lemma_ballots_bound(list@.take(i as int), vote);
        }
        let ghost before = counts@;
        if j < counts.len() {
            let seen = counts[j].1;
            counts.set(j, (vote, seen + 1));
        } else {
            counts.push((vote, 1));
        }
        proof {
            assert(counts@[j as int].0 == vote);
            assert forall|c: Vote| !counted(counts@, c) implies #[trigger] ballots_for(
                list@.take(i as int + 1),
                c,
            ) == 0 by {
                if counted(before, c) {
                    let at = choose|at: int| 0 <= at < before.len() && (#[trigger] before[at]).0 == c;
                    assert(counts@[at].0 == c);
                }
            }
        }
        i += 1;
    }
    assert(list@.take(i as int) =~= list@);
    let mut max: usize = 0;
    let mut leaders: Vec<Vote> = Vec::new();
    let mut k: usize = 0;
    while k < counts.len()
        invariant
            k <= counts.len(),
            forall|j: int| 0 <= j < counts@.len() ==> (#[trigger] counts@[j]).1 >= 1,
            forall|j: int, l: int|
                0 <= j < l < counts@.len() ==> (#[trigger] counts@[j]).0 != (#[trigger] counts@[l]).0,
            forall|j: int| 0 <= j < k ==> (#[trigger] counts@[j]).1 <= max,
            max > 0 ==> exists|j: int| 0 <= j < k && (#[trigger] counts@[j]).1 == max,
            max == 0 ==> k == 0,
            leaders@.no_duplicates(),
            forall|c: Vote| #[trigger]
                leaders@.contains(c) <==> exists|j: int|
                    0 <= j < k && (#[trigger] counts@[j]) == (c, max),
        decreases counts.len() - k,
    {
        let (vote, count) = counts[k];
        if count > max {
            max = count;
            leaders = Vec::new();
            leaders.push(vote);
            proof {
                assert(leaders@ =~= seq![vote]);
                assert forall|c: Vote| #[trigger] leaders@.contains(c) implies exists|j: int|
                    0 <= j < k + 1 && (#[trigger] counts@[j]) == (c, max) by {
                    assert(leaders@[0] == vote);
                    assert(counts@[k as int] == (c, max));
                }
                assert forall|c: Vote|
                    (exists|j: int| 0 <= j < k + 1 && (#[trigger] counts@[j]) == (c, max))
                    implies #[trigger] leaders@.contains(c) by {
                    let j = choose|j: int| 0 <= j < k + 1 && (#[trigger] counts@[j]) == (c, max);
                    assert(j == k);
                    assert(leaders@[0] == c);
                }
                assert(counts@[k as int].1 == max);
            }
        } else if count == max {
            let ghost before = leaders@;
            proof {
                if before.contains(vote) {
                    let j = choose|j: int| 0 <= j < k && (#[trigger] counts@[j]) == (vote, max);
                    assert(counts@[j].0 == counts@[k as int].0);
                }
            }
            leaders.push(vote);
            proof {
                assert forall|c: Vote| #[trigger] leaders@.contains(c) implies exists|j: int|
                    0 <= j < k + 1 && (#[trigger] counts@[j]) == (c, max) by {
                    let at = choose|at: int| 0 <= at < leaders@.len() && leaders@[at] == c;
                    if at < before.len() {
                        assert(before[at] == c);
                        assert(before.contains(c));
                    } else {
                        assert(counts@[k as int] == (c, max));
                    }
                }
                assert forall|c: Vote|
                    (exists|j: int| 0 <= j < k + 1 && (#[trigger] counts@[j]) == (c, max))
                    implies #[trigger] leaders@.contains(c) by {
                    let j = choose|j: int| 0 <= j < k + 1 && (#[trigger] counts@[j]) == (c, max);
                    if j < k {
                        assert(before.contains(c));
                        let at = choose|at: int| 0 <= at < before.len() && before[at] == c;
                        assert(leaders@[at] == c);
                    } else {
                        assert(leaders@[before.len() as int] == c);
                    }
                }
            }
        }
        k += 1;
    }
    proof {
        let ls = leaders@.to_set();
        assert forall|c: Vote| #[trigger] votes_for(votes@, c) <= max by {
            lemma_list_counts(list@, votes@, c);
            if counted(counts@, c) {
                let j = choose|j: int| 0 <= j < counts@.len() && (#[trigger] counts@[j]).0 == c;
            }
        }
        assert forall|c: Vote| #[trigger] ls.contains(c) <==> (max > 0 && votes_for(votes@, c) == max) by {
            lemma_list_counts(list@, votes@, c);
            if leaders@.contains(c) {
                let j = choose|j: int| 0 <= j < k && (#[trigger] counts@[j]) == (c, max);
                assert(counts@[j].1 >= 1);
            }
            if max > 0 && votes_for(votes@, c) == max {
                if counted(counts@, c) {
                    let j = choose|j: int| 0 <= j < counts@.len() && (#[trigger] counts@[j]).0 == c;
                    assert(counts@[j] == (c, max));
                }
            }
        }
        if max > 0 {
            let j = choose|j: int| 0 <= j < k && (#[trigger] counts@[j]).1 == max;
            lemma_list_counts(list@, votes@, counts@[j].0);
            assert(votes_for(votes@, counts@[j].0) == max);
        }
        lemma_tally_exact(votes@, max as nat, ls);
    }
    (max, leaders)
}

/// What the ballots settle on, from the leading choices of their tally.
pub fn resolution(leaders: &Vec<Vote>) -> (r: Resolution)
    ensures
        r == outcome(leaders@),
{
    if leaders.len() == 1 {
        match leaders[0] {
            Vote::Player(target) => Resolution::Lynch(target),
            Vote::NoLynch => Resolution::NoLynch,
        }
    } else {
        Resolution::NoLynch
    }
}

} // verus!
