//! Joining text pieces with a separator.
use vstd::prelude::*;

verus! {

/// The pieces of `list` in order, with `sep` between each two neighbours.
pub open spec fn seq_join(list: Seq<Seq<char>>, sep: Seq<char>) -> Seq<char>
    decreases list.len(),
{
    if list.len() == 0 {
        Seq::empty()
    } else if list.len() == 1 {
        list[0]
    } else {
        seq_join(list.drop_last(), sep) + sep + list.last()
    }
}

/// The text of each string.
pub open spec fn texts(list: Seq<String>) -> Seq<Seq<char>> {
    list.map_values(|s: String| s@)
}

/// Joins `list` with `sep` between neighbours.
pub fn join_strings(list: &Vec<String>, sep: &str) -> (res: String)
    ensures
        res@ == seq_join(texts(list@), sep@),
{
    let mut res = String::new();
    let ghost all = texts(list@);
    let mut i: usize = 0;
    while i < list.len()
        invariant
            i <= list.len(),
            all == texts(list@),
            all.len() == list.len(),
            res@ == seq_join(all.take(i as int), sep@),
        decreases list.len() - i,
    {
        assert(all.take(i + 1).drop_last() =~= all.take(i as int));
        assert(all.take(i + 1).last() == list@[i as int]@);
        if i != 0 {
            res.append(sep);
        }
        res.append(list[i].as_str());
        i = i + 1;
    }
    assert(all.take(i as int) =~= all);
    res
}

/// A joined text starts with its first piece.
pub proof fn lemma_seq_join_starts_with_first(list: Seq<Seq<char>>, sep: Seq<char>)
    requires
        list.len() >= 1,
    ensures
        list[0].len() <= seq_join(list, sep).len(),
        seq_join(list, sep).subrange(0, list[0].len() as int) == list[0],
    decreases list.len(),
{
    if list.len() > 1 {
        let prev = list.drop_last();
        lemma_seq_join_starts_with_first(prev, sep);
        assert(prev[0] == list[0]);
        let whole = seq_join(list, sep);
        assert(whole == seq_join(prev, sep) + sep + list.last());
        assert(whole.subrange(0, list[0].len() as int) =~= seq_join(prev, sep).subrange(
            0,
            list[0].len() as int,
        ));
    }
}

/// `a + b` starts with `a`.
pub proof fn lemma_concat_starts_with(a: Seq<char>, b: Seq<char>)
    ensures
        a.len() <= (a + b).len(),
        (a + b).subrange(0, a.len() as int) == a,
{
    assert((a + b).subrange(0, a.len() as int) =~= a);
}

/// A text that starts with `p` still does after more is appended.
pub proof fn lemma_prefix_extend(x: Seq<char>, p: Seq<char>, c: Seq<char>)
    requires
        p.len() <= x.len(),
        x.subrange(0, p.len() as int) == p,
    ensures
        p.len() <= (x + c).len(),
        (x + c).subrange(0, p.len() as int) == p,
{
    assert((x + c).subrange(0, p.len() as int) =~= x.subrange(0, p.len() as int));
}

/// Putting `a` in front of a text that starts with `p` gives one that starts with `a + p`.
pub proof fn lemma_prefix_prepend(a: Seq<char>, y: Seq<char>, p: Seq<char>)
    requires
        p.len() <= y.len(),
        y.subrange(0, p.len() as int) == p,
    ensures
        (a + p).len() <= (a + y).len(),
        (a + y).subrange(0, (a + p).len() as int) == a + p,
{
    assert forall|i: int| 0 <= i < (a + p).len() implies (a + y).subrange(0, (a + p).len() as int)[i]
        == (a + p)[i] by {
        if i >= a.len() {
            assert(y.subrange(0, p.len() as int)[i - a.len()] == y[i - a.len()]);
        }
    }
    assert((a + y).subrange(0, (a + p).len() as int) =~= a + p);
}

} // verus!
