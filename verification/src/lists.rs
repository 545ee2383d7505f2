//! Lists of participants: membership, differences and a stable order.

use vstd::prelude::*;

verus! {

/// Every entry of `part` is an entry of `whole`.
pub open spec fn subset(part: Seq<u64>, whole: Seq<u64>) -> bool {
    forall|i: int| 0 <= i < part.len() ==> whole.contains(#[trigger] part[i])
}

/// The two lists hold the same participants.
pub open spec fn same_members(a: Seq<u64>, b: Seq<u64>) -> bool {
    subset(a, b) && subset(b, a)
}

/// The entries of `list` that `rest` does not hold, in the order of `list`.
pub open spec fn missing(list: Seq<u64>, rest: Seq<u64>) -> Seq<u64>
    decreases list.len(),
{
    if list.len() == 0 {
        Seq::empty()
    } else if rest.contains(list.last()) {
        missing(list.drop_last(), rest)
    } else {
        missing(list.drop_last(), rest).push(list.last())
    }
}

/// `list` without its entries equal to `who`, in the same order.
pub open spec fn except(list: Seq<u64>, who: u64) -> Seq<u64>
    decreases list.len(),
{
    if list.len() == 0 {
        Seq::empty()
    } else if list.last() == who {
        except(list.drop_last(), who)
    } else {
        except(list.drop_last(), who).push(list.last())
    }
}

/// `x` put into the ascending list `s`, behind the entries that are not
/// greater.
pub open spec fn placed(s: Seq<u64>, x: u64) -> Seq<u64>
    decreases s.len(),
{
    if s.len() == 0 {
        seq![x]
    } else if s.last() <= x {
        s.push(x)
    } else {
        placed(s.drop_last(), x).push(s.last())
    }
}

/// The entries of `s` in ascending order.
pub open spec fn ascending(s: Seq<u64>) -> Seq<u64>
    decreases s.len(),
{
    if s.len() == 0 {
        Seq::empty()
    } else {
        placed(ascending(s.drop_last()), s.last())
    }
}

/// No entry of `s` is greater than a later one.
pub open spec fn ordered(s: Seq<u64>) -> bool {
    forall|i: int, j: int| 0 <= i < j < s.len() ==> s[i] <= s[j]
}

proof fn lemma_placed_at(s: Seq<u64>, x: u64, at: int)
    requires
        0 <= at <= s.len(),
        at > 0 ==> s[at - 1] <= x,
        forall|j: int| at <= j < s.len() ==> s[j] > x,
    ensures
        placed(s, x) == s.insert(at, x),
    decreases s.len() - at,
{
    if s.len() == 0 {
        assert(s.insert(at, x) =~= seq![x]);
    } else if at == s.len() {
        assert(s.insert(at, x) =~= s.push(x));
    } else {
        lemma_placed_at(s.drop_last(), x, at);
        assert(s.drop_last().insert(at, x).push(s.last()) =~= s.insert(at, x));
    }
}

proof fn lemma_placed_members(s: Seq<u64>, x: u64)
    ensures
        placed(s, x).len() == s.len() + 1,
        forall|y: u64| #[trigger] placed(s, x).contains(y) <==> (y == x || s.contains(y)),
        ordered(s) ==> ordered(placed(s, x)),
    decreases s.len(),
{
    let r = placed(s, x);
    if s.len() == 0 {
        assert(r[0] == x);
    } else if s.last() <= x {
        assert forall|y: u64| #[trigger] r.contains(y) <==> (y == x || s.contains(y)) by {
            if r.contains(y) {
                let i = choose|i: int| 0 <= i < r.len() && r[i] == y;
                if i < s.len() {
                    assert(s[i] == y);
                }
            }
            if y == x {
                assert(r[s.len() as int] == y);
            }
            if s.contains(y) {
                let i = choose|i: int| 0 <= i < s.len() && s[i] == y;
                assert(r[i] == y);
            }
        }
    } else {
        let head = s.drop_last();
        let inner = placed(head, x);
        lemma_placed_members(head, x);
        assert forall|y: u64| #[trigger] r.contains(y) <==> (y == x || s.contains(y)) by {
            if r.contains(y) {
                let i = choose|i: int| 0 <= i < r.len() && r[i] == y;
                if i < inner.len() {
                    assert(inner[i] == y);
                    assert(inner.contains(y));
                    if head.contains(y) {
                        let k = choose|k: int| 0 <= k < head.len() && head[k] == y;
                        assert(s[k] == y);
                    }
                } else {
                    assert(s[s.len() - 1] == y);
                }
            }
            if y == x {
                assert(inner.contains(y));
                let i = choose|i: int| 0 <= i < inner.len() && inner[i] == y;
                assert(r[i] == y);
            }
            if s.contains(y) {
                let i = choose|i: int| 0 <= i < s.len() && s[i] == y;
                if i < head.len() {
                    assert(head[i] == y);
                    assert(head.contains(y));
                    assert(inner.contains(y));
                    let k = choose|k: int| 0 <= k < inner.len() && inner[k] == y;
                    assert(r[k] == y);
                } else {
                    assert(r[inner.len() as int] == y);
                }
            }
        }
        if ordered(s) {
            assert(ordered(head)) by {
                assert forall|i: int, j: int| 0 <= i < j < head.len() implies head[i] <= head[j] by {
                    assert(s[i] <= s[j]);
                }
            }
            assert forall|i: int, j: int| 0 <= i < j < r.len() implies r[i] <= r[j] by {
                if j < inner.len() {
                    assert(inner[i] <= inner[j]);
                } else {
                    assert(inner[i] == r[i]);
                    assert(inner.contains(inner[i]));
                    if inner[i] != x {
                        assert(head.contains(inner[i]));
                        let k = choose|k: int| 0 <= k < head.len() && head[k] == inner[i];
                        assert(s[k] <= s[s.len() - 1]);
                    }
                }
            }
        }
    }
}

/// Sorting keeps the entries, and their number, and puts them in ascending
/// order.
pub proof fn lemma_ascending(s: Seq<u64>)
    ensures
        ordered(ascending(s)),
        ascending(s).len() == s.len(),
        forall|y: u64| #[trigger] ascending(s).contains(y) <==> s.contains(y),
    decreases s.len(),
{
    if s.len() > 0 {
        let head = s.drop_last();
        lemma_ascending(head);
        lemma_placed_members(ascending(head), s.last());
        assert forall|y: u64| #[trigger] ascending(s).contains(y) <==> s.contains(y) by {
            if s.contains(y) {
                let i = choose|i: int| 0 <= i < s.len() && s[i] == y;
                if i < head.len() {
                    assert(head[i] == y);
                    assert(head.contains(y));
                }
            }
            if head.contains(y) {
                let i = choose|i: int| 0 <= i < head.len() && head[i] == y;
                assert(s[i] == y);
            }
            if y == s.last() {
                assert(s[s.len() - 1] == y);
            }
        }
    }
}

/// What `missing` holds: the entries of `list` that are not in `rest`.
pub proof fn lemma_missing(list: Seq<u64>, rest: Seq<u64>)
    ensures
        forall|y: u64| #[trigger]
            missing(list, rest).contains(y) <==> (list.contains(y) && !rest.contains(y)),
        missing(list, rest).len() <= list.len(),
        list.no_duplicates() ==> missing(list, rest).no_duplicates(),
    decreases list.len(),
{
    let r = missing(list, rest);
    if list.len() > 0 {
        let head = list.drop_last();
        let inner = missing(head, rest);
        lemma_missing(head, rest);
        assert forall|y: u64| #[trigger] r.contains(y) <==> (list.contains(y) && !rest.contains(
            y,
        )) by {
            if r.contains(y) {
                let i = choose|i: int| 0 <= i < r.len() && r[i] == y;
                if i < inner.len() {
                    assert(inner[i] == y);
                    assert(inner.contains(y));
                    let k = choose|k: int| 0 <= k < head.len() && head[k] == y;
                    assert(list[k] == y);
                } else {
                    assert(list[list.len() - 1] == y);
                }
            }
            if list.contains(y) && !rest.contains(y) {
                let i = choose|i: int| 0 <= i < list.len() && list[i] == y;
                if i < head.len() {
                    assert(head[i] == y);
                    assert(head.contains(y));
                    assert(inner.contains(y));
                    let k = choose|k: int| 0 <= k < inner.len() && inner[k] == y;
                    assert(r[k] == y);
                } else {
                    assert(r[inner.len() as int] == y);
                }
            }
        }
        if list.no_duplicates() {
            assert(head.no_duplicates());
            if !rest.contains(list.last()) {
                assert forall|i: int, j: int| 0 <= i < j < r.len() implies r[i] != r[j] by {
                    if j == inner.len() {
                        assert(inner[i] == r[i]);
                        if r[i] == r[j] {
                            assert(inner.contains(list.last()));
                            let k = choose|k: int| 0 <= k < head.len() && head[k] == list.last();
                            assert(list[k] == list[list.len() - 1]);
                        }
                    } else {
                        assert(inner[i] != inner[j]);
                    }
                }
            }
        }
    }
}

/// What `except` holds: the entries of `list` other than `who`.
pub proof fn lemma_except(list: Seq<u64>, who: u64)
    ensures
        forall|y: u64| #[trigger] except(list, who).contains(y) <==> (list.contains(y) && y != who),
        except(list, who).len() <= list.len(),
        list.contains(who) ==> except(list, who).len() < list.len(),
        !list.contains(who) ==> except(list, who) == list,
        list.no_duplicates() ==> except(list, who).no_duplicates(),
    decreases list.len(),
{
    let r = except(list, who);
    if list.len() > 0 {
        let head = list.drop_last();
        let inner = except(head, who);
        lemma_except(head, who);
        assert forall|y: u64| #[trigger] r.contains(y) <==> (list.contains(y) && y != who) by {
            if r.contains(y) {
                let i = choose|i: int| 0 <= i < r.len() && r[i] == y;
                if i < inner.len() {
                    assert(inner[i] == y);
                    assert(inner.contains(y));
                    let k = choose|k: int| 0 <= k < head.len() && head[k] == y;
                    assert(list[k] == y);
                } else {
                    assert(list[list.len() - 1] == y);
                }
            }
            if list.contains(y) && y != who {
                let i = choose|i: int| 0 <= i < list.len() && list[i] == y;
                if i < head.len() {
                    assert(head[i] == y);
                    assert(head.contains(y));
                    assert(inner.contains(y));
                    let k = choose|k: int| 0 <= k < inner.len() && inner[k] == y;
                    assert(r[k] == y);
                } else {
                    assert(r[inner.len() as int] == y);
                }
            }
        }
        if list.contains(who) {
            let i = choose|i: int| 0 <= i < list.len() && list[i] == who;
            if i < head.len() {
                assert(head[i] == who);
                assert(head.contains(who));
            }
        }
        if !list.contains(who) {
            assert(list[list.len() - 1] != who);
            assert(!head.contains(who)) by {
                if head.contains(who) {
                    let k = choose|k: int| 0 <= k < head.len() && head[k] == who;
                    assert(list[k] == who);
                }
            }
            assert(inner.push(list.last()) =~= list);
        }
        if list.no_duplicates() {
            assert(head.no_duplicates());
            if list.last() != who {
                assert forall|i: int, j: int| 0 <= i < j < r.len() implies r[i] != r[j] by {
                    if j == inner.len() {
                        assert(inner[i] == r[i]);
                        if r[i] == r[j] {
                            assert(inner.contains(list.last()));
                            let k = choose|k: int| 0 <= k < head.len() && head[k] == list.last();
                            assert(list[k] == list[list.len() - 1]);
                        }
                    } else {
                        assert(inner[i] != inner[j]);
                    }
                }
            }
        }
    }
}

/// Whether `list` holds `who`.
pub fn contains(list: &Vec<u64>, who: u64) -> (found: bool)
    ensures
        found == list@.contains(who),
{
    let mut i: usize = 0;
    while i < list.len()
        invariant
            i <= list.len(),
            forall|j: int| 0 <= j < i ==> list@[j] != who,
        decreases list.len() - i,
    {
        if list[i] == who {
            return true;
        }
        i += 1;
    }
    false
}

/// Whether no entry of `list` occurs twice.
pub fn distinct(list: &Vec<u64>) -> (ok: bool)
    ensures
        ok == list@.no_duplicates(),
{
    let mut i: usize = 0;
    while i < list.len()
        invariant
            i <= list.len(),
            forall|a: int, b: int| 0 <= a < b < i ==> list@[a] != list@[b],
        decreases list.len() - i,
    {
        let mut j: usize = 0;
        while j < i
            invariant
                j <= i < list.len(),
                forall|a: int| 0 <= a < j ==> list@[a] != list@[i as int],
            decreases i - j,
        {
            if list[j] == list[i] {
                return false;
            }
            j += 1;
        }
        i += 1;
    }
    true
}

/// Whether every entry of `part` is an entry of `whole`.
pub fn is_subset(part: &Vec<u64>, whole: &Vec<u64>) -> (ok: bool)
    ensures
        ok == subset(part@, whole@),
{
    let mut i: usize = 0;
    while i < part.len()
        invariant
            i <= part.len(),
            forall|j: int| 0 <= j < i ==> whole@.contains(#[trigger] part@[j]),
        decreases part.len() - i,
    {
        if !contains(whole, part[i]) {
            return false;
        }
        i += 1;
    }
    true
}

/// The entries of `list` that `rest` does not hold, in the order of `list`.
pub fn difference(list: &Vec<u64>, rest: &Vec<u64>) -> (out: Vec<u64>)
    ensures
        out@ == missing(list@, rest@),
{
    let mut out: Vec<u64> = Vec::new();
    let mut i: usize = 0;
    while i < list.len()
        invariant
            i <= list.len(),
            out@ == missing(list@.take(i as int), rest@),
        decreases list.len() - i,
    {
        assert(list@.take(i as int + 1).drop_last() =~= list@.take(i as int));
        if !contains(rest, list[i]) {
            out.push(list[i]);
        }
        i += 1;
    }
    assert(list@.take(i as int) =~= list@);
    out
}

/// `list` without its entries equal to `who`, in the same order.
pub fn remove_all(list: &Vec<u64>, who: u64) -> (out: Vec<u64>)
    ensures
        out@ == except(list@, who),
{
    let mut out: Vec<u64> = Vec::new();
    let mut i: usize = 0;
    while i < list.len()
        invariant
            i <= list.len(),
            out@ == except(list@.take(i as int), who),
        decreases list.len() - i,
    {
        assert(list@.take(i as int + 1).drop_last() =~= list@.take(i as int));
        if list[i] != who {
            out.push(list[i]);
        }
        i += 1;
    }
    assert(list@.take(i as int) =~= list@);
    out
}

/// The entries of `list` in ascending order.
pub fn sort(list: &Vec<u64>) -> (out: Vec<u64>)
    ensures
        out@ == ascending(list@),
{
    let mut out: Vec<u64> = Vec::new();
    let mut i: usize = 0;
    while i < list.len()
        invariant
            i <= list.len(),
            out@ == ascending(list@.take(i as int)),
        decreases list.len() - i,
    {
        let x = list[i];
        let mut at: usize = out.len();
        while at > 0 && out[at - 1] > x
            invariant
                at <= out.len(),
                forall|j: int| at <= j < out.len() ==> out@[j] > x,
            decreases at,
        {
            at -= 1;
        }
        proof {
            lemma_placed_at(out@, x, at as int);
            assert(list@.take(i as int + 1).drop_last() =~= list@.take(i as int));
        }
        out.insert(at, x);
        i += 1;
    }
    assert(list@.take(i as int) =~= list@);
    out
}

/// A copy of the list.
pub fn copy_vec<T: Copy>(list: &Vec<T>) -> (out: Vec<T>)
    ensures
        out@ == list@,
{
    let mut out: Vec<T> = Vec::new();
    let mut i: usize = 0;
    while i < list.len()
        invariant
            i <= list.len(),
            out@ == list@.take(i as int),
        decreases list.len() - i,
    {
        out.push(list[i]);
        i += 1;
        assert(out@ =~= list@.take(i as int));
    }
    assert(list@.take(i as int) =~= list@);
    out
}

/// Two lists without repetition that hold the same participants are equally
/// long.
pub proof fn lemma_same_members_len(a: Seq<u64>, b: Seq<u64>)
    requires
        a.no_duplicates(),
        b.no_duplicates(),
        same_members(a, b),
    ensures
        a.len() == b.len(),
        a.to_set() == b.to_set(),
{
    a.unique_seq_to_set();
    b.unique_seq_to_set();
    assert forall|x: u64| a.to_set().contains(x) <==> b.to_set().contains(x) by {
        if a.contains(x) {
            let i = choose|i: int| 0 <= i < a.len() && a[i] == x;
            assert(b.contains(a[i]));
        }
        if b.contains(x) {
            let i = choose|i: int| 0 <= i < b.len() && b[i] == x;
            assert(a.contains(b[i]));
        }
    }
    assert(a.to_set() =~= b.to_set());
}

/// Calls `Itertools::exactly_one` of itertools on the entries of the list:
/// it hands back the entry of a list of one, and an error, which is dropped
/// here, for a list that is empty or longer. Taken on trust.
#[verifier::external_body]
pub(crate) fn exactly_one<T>(list: Vec<T>) -> (only: Option<T>)
    ensures
        only == if list@.len() == 1 {
            Some(list@[0])
        } else {
            None::<T>
        },
{
    itertools::Itertools::exactly_one(list.into_iter()).ok()
}

} // verus!
