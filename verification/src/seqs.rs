//! Small general facts about filtered sequences, shared by the peer
//! manager and the network manager.

use vstd::prelude::*;

verus! {

/// Two positions of a filtered sequence come from two distinct positions
/// of the original, in the same order.
pub proof fn lemma_filter_positions<T>(s: Seq<T>, pred: spec_fn(T) -> bool, a: int, b: int)
    requires
        0 <= a < b < s.filter(pred).len(),
    ensures
        exists|x: int, y: int|
            0 <= x < y < s.len() && s.filter(pred)[a] == s[x] && s.filter(pred)[b] == s[y],
    decreases s.len(),
{
    reveal(Seq::filter);
    if s.len() > 0 {
        let f = s.filter(pred);
        let fd = s.drop_last().filter(pred);
        assert(s.drop_last().push(s.last()) =~= s);
        if pred(s.last()) {
            assert(f =~= fd.push(s.last()));
            if b < f.len() - 1 {
                lemma_filter_positions(s.drop_last(), pred, a, b);
                let (x, y) = choose|x: int, y: int|
                    0 <= x < y < s.drop_last().len() && fd[a] == s.drop_last()[x] && fd[b]
                        == s.drop_last()[y];
                assert(f[a] == s[x] && f[b] == s[y]);
            } else {
                assert(f[b] == s.last() && s.last() == s[s.len() - 1]);
                lemma_filter_element_position(s.drop_last(), pred, a);
                let x = choose|x: int| 0 <= x < s.drop_last().len() && fd[a] == s.drop_last()[x];
                assert(f[a] == s[x] && f[b] == s[s.len() - 1]);
            }
        } else {
            assert(f =~= fd);
            lemma_filter_positions(s.drop_last(), pred, a, b);
            let (x, y) = choose|x: int, y: int|
                0 <= x < y < s.drop_last().len() && fd[a] == s.drop_last()[x] && fd[b]
                    == s.drop_last()[y];
            assert(f[a] == s[x] && f[b] == s[y]);
        }
    }
}

/// Every position of a filtered sequence names an element of the
/// original.
pub proof fn lemma_filter_element_position<T>(s: Seq<T>, pred: spec_fn(T) -> bool, a: int)
    requires
        0 <= a < s.filter(pred).len(),
    ensures
        exists|x: int| 0 <= x < s.len() && s.filter(pred)[a] == s[x],
    decreases s.len(),
{
    reveal(Seq::filter);
    if s.len() > 0 {
        let f = s.filter(pred);
        let fd = s.drop_last().filter(pred);
        assert(s.drop_last().push(s.last()) =~= s);
        if a < fd.len() {
            lemma_filter_element_position(s.drop_last(), pred, a);
            let x = choose|x: int| 0 <= x < s.drop_last().len() && fd[a] == s.drop_last()[x];
            assert(f[a] == s[x]);
        } else {
            assert(pred(s.last()) && f[a] == s.last());
            assert(f[a] == s[s.len() - 1]);
        }
    }
}

/// Appending one element extends the filtered sequence by that element
/// exactly when it satisfies the predicate.
pub proof fn lemma_filter_push<T>(s: Seq<T>, pred: spec_fn(T) -> bool, x: T)
    ensures
        pred(x) ==> s.push(x).filter(pred) == s.filter(pred).push(x),
        !pred(x) ==> s.push(x).filter(pred) == s.filter(pred),
{
    reveal(Seq::filter);
    assert(s.push(x).drop_last() =~= s);
    assert(s.push(x).last() == x);
    if pred(x) {
        assert(s.push(x).filter(pred) =~= s.filter(pred).push(x));
    } else {
        assert(s.push(x).filter(pred) =~= s.filter(pred));
    }
}

} // verus!
