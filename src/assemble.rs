use vstd::prelude::*;

use crate::chart::ChartDate;
use crate::text::{decimal, push_decimal};

verus! {

/// How many tracks the catalog takes in one add call.
pub const ADD_BATCH_LIMIT: usize = 100;

/// The title of the playlist of a chart week.
pub open spec fn title_text(year: int, month: Seq<char>, day: Seq<char>) -> Seq<char> {
    "Top 100 from "@ + decimal(year) + seq![' '] + month + seq![' '] + day
}

/// Names the playlist after the chart week, so that runs for one week share a title.
pub fn playlist_title(date: &ChartDate) -> (r: String)
    ensures
        r@ == title_text(date.year as int, date.month@, date.day@),
{
    let mut s = String::from_str("Top 100 from ");
    push_decimal(&mut s, date.year as i64);
    s.append(" ");
    s.append(date.month.as_str());
    s.append(" ");
    s.append(date.day.as_str());
    proof {
        reveal_strlit("Top 100 from ");
        reveal_strlit(" ");
    }
    assert(s@ =~= title_text(date.year as int, date.month@, date.day@));
    s
}

pub open spec fn min(a: int, b: int) -> int {
    if a <= b { a } else { b }
}

/// The `k`-th batch of at most `limit` identifiers.
pub open spec fn batch(ids: Seq<String>, limit: int, k: int) -> Seq<String> {
    ids.subrange(min(k * limit, ids.len() as int), min(k * limit + limit, ids.len() as int))
}

/// Cuts the identifiers into consecutive batches of `limit`, the last one
/// possibly shorter, keeping their order.
pub fn batches(ids: &Vec<String>, limit: usize) -> (r: Vec<Vec<String>>)
    requires
        limit > 0,
    ensures
        forall|k: int| 0 <= k < r@.len() ==> #[trigger] r@[k]@ == batch(ids@, limit as int, k),
        forall|k: int| 0 <= k < r@.len() ==> #[trigger] r@[k]@.len() > 0,
        r@.len() == (ids@.len() + limit - 1) / limit as int,
{
    let n = ids.len();
    let mut out: Vec<Vec<String>> = Vec::new();
    let mut start: usize = 0;
    assert(out@.len() * limit == 0);
    while start < n
        invariant
            n == ids@.len(),
            limit > 0,
            start <= n,
            start as int == min(out@.len() * limit, n as int),
            forall|k: int| 0 <= k < out@.len() ==> #[trigger] out@[k]@ == batch(ids@, limit as int, k),
            forall|k: int| 0 <= k < out@.len() ==> #[trigger] out@[k]@.len() > 0,
            out@.len() > 0 ==> (out@.len() - 1) * limit < n,
        decreases n - start,
    {
        let end: usize = if n - start <= limit { n } else { start + limit };
        let mut chunk: Vec<String> = Vec::new();
        let mut i: usize = start;
        while i < end
            invariant
                start <= i <= end <= n,
                n == ids@.len(),
                chunk@ == ids@.subrange(start as int, i as int),
            decreases end - i,
        {
            chunk.push(ids[i].clone());
            i = i + 1;
            assert(chunk@ =~= ids@.subrange(start as int, i as int));
        }
        let ghost len = out@.len();
        assert(start as int == len * limit);
        assert((len + 1) * limit == len * limit + limit) by (nonlinear_arith);
        out.push(chunk);
        assert(out@[len as int]@ == batch(ids@, limit as int, len as int));
        start = end;
    }
    proof {
        let m = out@.len() as int;
        let l = limit as int;
        let q = (n + l - 1) / l;
        assert(m * l >= n);
        assert(m == 0 || (m - 1) * l < n);
        assert(q * l <= n + l - 1 < q * l + l) by (nonlinear_arith)
            requires
                q == (n + l - 1) / l,
                l > 0,
                n >= 0,
        ;
        assert(m == q) by (nonlinear_arith)
            requires
                m * l >= n,
                m == 0 || (m - 1) * l < n,
                q * l <= n + l - 1,
                n + l - 1 < q * l + l,
                l > 0,
                m >= 0,
                n >= 0,
        ;
    }
    out
}

/// The batches laid end to end.
pub open spec fn joined(chunks: Seq<Seq<String>>) -> Seq<String>
    decreases chunks.len(),
{
    if chunks.len() == 0 {
        seq![]
    } else {
        joined(chunks.drop_last()) + chunks.last()
    }
}

proof fn lemma_first_batches(ids: Seq<String>, limit: int, m: int)
    requires
        limit > 0,
        m >= 0,
    ensures
        joined(Seq::new(m as nat, |k: int| batch(ids, limit, k))) == ids.subrange(0, min(m * limit, ids.len() as int)),
    decreases m,
{
    let f = |k: int| batch(ids, limit, k);
    if m == 0 {
        assert(ids.subrange(0, 0) =~= Seq::<String>::empty());
        assert(joined(Seq::new(0, f)) =~= seq![]);
    } else {
        lemma_first_batches(ids, limit, m - 1);
        assert(Seq::new(m as nat, f).drop_last() =~= Seq::new((m - 1) as nat, f));
        assert((m - 1) * limit + limit == m * limit) by (nonlinear_arith);
        assert((m - 1) * limit >= 0) by (nonlinear_arith)
            requires
                m >= 1,
                limit > 0,
        ;
        assert(ids.subrange(0, min((m - 1) * limit, ids.len() as int)) + batch(ids, limit, m - 1)
            =~= ids.subrange(0, min(m * limit, ids.len() as int)));
    }
}

/// Adding the batches one after another adds every identifier once, in order.
pub proof fn lemma_batches_keep_order(ids: Seq<String>, limit: int, m: int)
    requires
        limit > 0,
        m >= 0,
        m * limit >= ids.len(),
    ensures
        joined(Seq::new(m as nat, |k: int| batch(ids, limit, k))) == ids,
{
    lemma_first_batches(ids, limit, m);
    assert(ids.subrange(0, ids.len() as int) =~= ids);
}

} // verus!