//! Sequences without repetitions, and sequences without one value.

use vstd::prelude::*;

verus! {

/// `s` with every item kept where it first occurs and dropped where it
/// occurs again.
pub open spec fn distinct<A>(s: Seq<A>) -> Seq<A>
    decreases s.len(),
{
    if s.len() == 0 {
        s
    } else {
        let front = distinct(s.drop_last());
        if front.contains(s.last()) {
            front
        } else {
            front.push(s.last())
        }
    }
}

/// `distinct(s)` holds the items of `s`, each of them once, and is no longer
/// than `s`.
pub proof fn lemma_distinct<A>(s: Seq<A>)
    ensures
        distinct(s).no_duplicates(),
        distinct(s).len() <= s.len(),
        forall|x: A| distinct(s).contains(x) <==> s.contains(x),
    decreases s.len(),
{
    if s.len() > 0 {
        let front = s.drop_last();
        let last = s.last();
        let kept = distinct(front);
        lemma_distinct(front);
        assert forall|x: A| distinct(s).contains(x) <==> s.contains(x) by {
            if s.contains(x) {
                let i = choose|i: int| 0 <= i < s.len() && s[i] == x;
                if i < front.len() {
                    assert(front[i] == x);
                    assert(front.contains(x));
                    assert(kept.contains(x));
                    let j = choose|j: int| 0 <= j < kept.len() && kept[j] == x;
                    if !kept.contains(last) {
                        assert(kept.push(last)[j] == x);
                    }
                } else {
                    assert(x == last);
                    if !kept.contains(last) {
                        assert(kept.push(last)[kept.len() as int] == x);
                    }
                }
                assert(distinct(s).contains(x));
            }
            if distinct(s).contains(x) {
                let j = choose|j: int| 0 <= j < distinct(s).len() && distinct(s)[j] == x;
                if j < kept.len() {
                    assert(kept[j] == x);
                    assert(kept.contains(x));
                    assert(front.contains(x));
                    let i = choose|i: int| 0 <= i < front.len() && front[i] == x;
                    assert(s[i] == x);
                } else {
                    assert(x == last);
                    assert(s[s.len() - 1] == x);
                }
                assert(s.contains(x));
            }
        }
    }
}

/// A sequence without repetitions is its own `distinct`.
pub proof fn lemma_distinct_of_no_duplicates<A>(s: Seq<A>)
    requires
        s.no_duplicates(),
    ensures
        distinct(s) == s,
    decreases s.len(),
{
    if s.len() > 0 {
        let front = s.drop_last();
        lemma_distinct_of_no_duplicates(front);
        if front.contains(s.last()) {
            let i = choose|i: int| 0 <= i < front.len() && front[i] == s.last();
            assert(s[i] == s[s.len() - 1]);
        }
        assert(front.push(s.last()) =~= s);
    }
}

/// A sequence that is as long as its `distinct` is its own `distinct`.
pub proof fn lemma_distinct_of_same_length<A>(s: Seq<A>)
    requires
        distinct(s).len() == s.len(),
    ensures
        distinct(s) == s,
    decreases s.len(),
{
    if s.len() > 0 {
        let front = s.drop_last();
        lemma_distinct(front);
        lemma_distinct_of_same_length(front);
        assert(front.push(s.last()) =~= s);
    }
}

/// One more item at the end is kept if and only if it is new.
pub proof fn lemma_distinct_push<A>(s: Seq<A>, x: A)
    ensures
        distinct(s.push(x)) == if distinct(s).contains(x) {
            distinct(s)
        } else {
            distinct(s).push(x)
        },
{
    assert(s.push(x).drop_last() =~= s);
}

/// `s` without every occurrence of `x`, the rest in its order.
pub open spec fn without<A>(s: Seq<A>, x: A) -> Seq<A>
    decreases s.len(),
{
    if s.len() == 0 {
        s
    } else if s.last() == x {
        without(s.drop_last(), x)
    } else {
        without(s.drop_last(), x).push(s.last())
    }
}

/// `without(s, x)` holds what `s` holds but `x`, and repeats nothing that
/// `s` does not repeat.
pub proof fn lemma_without<A>(s: Seq<A>, x: A)
    ensures
        without(s, x).len() <= s.len(),
        forall|y: A| without(s, x).contains(y) <==> s.contains(y) && y != x,
        s.no_duplicates() ==> without(s, x).no_duplicates(),
        !s.contains(x) ==> without(s, x) == s,
    decreases s.len(),
{
    if s.len() > 0 {
        let front = s.drop_last();
        let last = s.last();
        let kept = without(front, x);
        lemma_without(front, x);
        assert forall|y: A| without(s, x).contains(y) <==> s.contains(y) && y != x by {
            if s.contains(y) && y != x {
                let i = choose|i: int| 0 <= i < s.len() && s[i] == y;
                if i < front.len() {
                    assert(front[i] == y);
                    assert(front.contains(y));
                    assert(kept.contains(y));
                    let j = choose|j: int| 0 <= j < kept.len() && kept[j] == y;
                    if last != x {
                        assert(kept.push(last)[j] == y);
                    }
                } else {
                    assert(last == y);
                    assert(kept.push(last)[kept.len() as int] == y);
                }
                assert(without(s, x).contains(y));
            }
            if without(s, x).contains(y) {
                let j = choose|j: int| 0 <= j < without(s, x).len() && without(s, x)[j] == y;
                if j < kept.len() {
                    assert(kept[j] == y);
                    assert(kept.contains(y));
                    assert(front.contains(y) && y != x);
                    let i = choose|i: int| 0 <= i < front.len() && front[i] == y;
                    assert(s[i] == y);
                } else {
                    assert(last != x);
                    assert(y == last);
                    assert(s[s.len() - 1] == y);
                }
                assert(s.contains(y) && y != x);
            }
        }
        if s.no_duplicates() {
            assert(front.no_duplicates()) by {
                assert forall|i: int, j: int|
                    0 <= i < front.len() && 0 <= j < front.len() && i != j implies front[i]
                    != front[j] by {
                    assert(front[i] == s[i] && front[j] == s[j]);
                }
            }
            if last != x {
                if kept.contains(last) {
                    assert(front.contains(last));
                    let i = choose|i: int| 0 <= i < front.len() && front[i] == last;
                    assert(s[i] == s[s.len() - 1]);
                }
                let more = kept.push(last);
                assert forall|i: int, j: int|
                    0 <= i < more.len() && 0 <= j < more.len() && i != j implies more[i]
                    != more[j] by {
                    if i < kept.len() {
                        assert(kept.contains(more[i]));
                    }
                    if j < kept.len() {
                        assert(kept.contains(more[j]));
                    }
                }
            }
        }
        if !s.contains(x) {
            assert(!front.contains(x)) by {
                if front.contains(x) {
                    let i = choose|i: int| 0 <= i < front.len() && front[i] == x;
                    assert(s[i] == x);
                }
            }
            assert(last != x) by {
                if last == x {
                    assert(s[s.len() - 1] == x);
                }
            }
            assert(front.push(last) =~= s);
        }
    }
}

/// One more item at the end stays unless it is the value left out.
pub proof fn lemma_without_push<A>(s: Seq<A>, y: A, x: A)
    ensures
        without(s.push(y), x) == if y == x {
            without(s, x)
        } else {
            without(s, x).push(y)
        },
{
    assert(s.push(y).drop_last() =~= s);
}

} // verus!
