//! The orders in which listings are shown, and a sort that keeps the rows it is given.
use crate::models::ticket::Ticket;
use vstd::prelude::*;

verus! {

/// How a listing is ordered.
#[derive(Debug, Clone, Copy, PartialEq, Eq, Structural)]
pub enum ListingOrder {
    /// Earliest event first, then oldest listing first.
    ByEventThenAge,
    /// Newest listing first.
    NewestFirst,
}

/// `a` may stand before `b` in the order.
pub open spec fn precedes(order: ListingOrder, a: Ticket, b: Ticket) -> bool {
    match order {
        ListingOrder::ByEventThenAge => a.event_date < b.event_date || (a.event_date
            == b.event_date && a.created_at <= b.created_at),
        ListingOrder::NewestFirst => a.created_at >= b.created_at,
    }
}

/// The rows stand in the order.
pub open spec fn sorted_by(s: Seq<Ticket>, order: ListingOrder) -> bool {
    forall|i: int, j: int| 0 <= i < j < s.len() ==> precedes(order, #[trigger] s[i], #[trigger] s[j])
}

fn precedes_exec(order: ListingOrder, a: &Ticket, b: &Ticket) -> (r: bool)
    ensures
        r == precedes(order, *a, *b),
{
    match order {
        ListingOrder::ByEventThenAge => a.event_date < b.event_date || (a.event_date
            == b.event_date && a.created_at <= b.created_at),
        ListingOrder::NewestFirst => a.created_at >= b.created_at,
    }
}

proof fn lemma_insert_multiset(s: Seq<Ticket>, p: int, x: Ticket)
    requires
        0 <= p <= s.len(),
    ensures
        s.insert(p, x).to_multiset() =~= s.to_multiset().insert(x),
{
    let u = s.insert(p, x);
    assert(u.remove(p) =~= s);
    vstd::seq_lib::to_multiset_remove(u, p);
    assert(u.contains(x)) by {
        assert(u[p] == x);
    }
    broadcast use vstd::seq_lib::group_to_multiset_ensures;
    broadcast use vstd::multiset::group_multiset_axioms;
    assert(u.to_multiset().count(x) > 0);
}

/// The rows of `v`, each once, in the order given.
pub fn sort_tickets(v: &Vec<Ticket>, order: ListingOrder) -> (r: Vec<Ticket>)
    ensures
        r@.to_multiset() == v@.to_multiset(),
        sorted_by(r@, order),
{
    let mut out: Vec<Ticket> = Vec::new();
    let mut i: usize = 0;
    proof {
        broadcast use vstd::seq_lib::group_to_multiset_ensures;
        assert(v@.subrange(0, 0) =~= Seq::<Ticket>::empty());
        assert(out@ =~= Seq::<Ticket>::empty());
    }
    while i < v.len()
        invariant
            i <= v@.len(),
            out@.to_multiset() == v@.subrange(0, i as int).to_multiset(),
            sorted_by(out@, order),
        decreases v@.len() - i,
    {
        let x = v[i].clone();
        let mut p: usize = 0;
        while p < out.len() && precedes_exec(order, &out[p], &x)
            invariant
                p <= out@.len(),
                forall|k: int| 0 <= k < p ==> precedes(order, #[trigger] out@[k], x),
            decreases out@.len() - p,
        {
            p = p + 1;
        }
        let ghost before = out@;
        out.insert(p, x);
        proof {
            let u = out@;
            assert(u == before.insert(p as int, x));
            assert forall|a: int, b: int| 0 <= a < b < u.len() implies precedes(
                order,
                #[trigger] u[a],
                #[trigger] u[b],
            ) by {
                if b < p {
                    assert(u[a] == before[a] && u[b] == before[b]);
                } else if b == p {
                    assert(u[a] == before[a]);
                } else if a < p {
                    assert(u[a] == before[a] && u[b] == before[b - 1]);
                } else if a == p {
                    assert(u[b] == before[b - 1]);
                    if b - 1 > p {
                        assert(precedes(order, before[p as int], before[b - 1]));
                    }
                } else {
                    assert(u[a] == before[a - 1] && u[b] == before[b - 1]);
                }
            }
            lemma_insert_multiset(before, p as int, x);
            assert(v@.subrange(0, i + 1) =~= v@.subrange(0, i as int).push(v@[i as int]));
            vstd::seq_lib::to_multiset_build(v@.subrange(0, i as int), v@[i as int]);
        }
        i = i + 1;
    }
    assert(v@.subrange(0, v@.len() as int) =~= v@);
    out
}

} // verus!
