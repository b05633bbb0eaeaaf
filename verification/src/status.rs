use vstd::prelude::*;

verus! {

/// The colour a letter gets: `G` right place, `Y` elsewhere in the answer,
/// `R` not (or no more) in the answer, `X` not yet known.
#[derive(Clone, Copy, Debug, PartialEq, Eq, Structural)]
pub enum Status {
    G,
    Y,
    R,
    X,
}

/// How much a colour tells: `X < R < Y < G`.
pub open spec fn rank(s: Status) -> nat {
    match s {
        Status::G => 3,
        Status::Y => 2,
        Status::R => 1,
        Status::X => 0,
    }
}

/// The colour a key shows after `new` is reported for it: the more
/// informative of the two.
pub open spec fn upgraded(old: Status, new: Status) -> Status {
    if rank(new) > rank(old) {
        new
    } else {
        old
    }
}

impl Status {
    /// Raises the colour to `new` when `new` tells more.
    pub fn update(&mut self, new: Status)
        ensures
            *final(self) == upgraded(*old(self), new),
    {
        match (*self, new) {
            (Status::Y, Status::G)
            | (Status::R, Status::G)
            | (Status::X, Status::G)
            | (Status::R, Status::Y)
            | (Status::X, Status::Y)
            | (Status::X, Status::R) => *self = new,
            (_, _) => {},
        }
    }

    /// The capital letter by which the colour is printed.
    pub fn letter(&self) -> (c: char)
        ensures
            c == match *self {
                Status::G => 'G',
                Status::Y => 'Y',
                Status::R => 'R',
                Status::X => 'X',
            },
    {
        match self {
            Status::G => 'G',
            Status::Y => 'Y',
            Status::R => 'R',
            Status::X => 'X',
        }
    }
}

/// The character `num` places after `A` (the alphabet position truncated
/// to a byte), by which a key is shown.
pub fn key_letter(num: usize) -> (c: char)
    requires
        (num as u8) <= 190,
    ensures
        c as int == 'A' as int + (num as u8),
{
    ((num as u8) + 65) as char
}

/// A key never loses information: its rank does not go down, and it ends at
/// one of the two colours.
pub proof fn lemma_update_monotone(old: Status, new: Status)
    ensures
        rank(upgraded(old, new)) >= rank(old),
        rank(upgraded(old, new)) >= rank(new),
        upgraded(old, new) == old || upgraded(old, new) == new,
{
}

/// Reporting the same colour twice is the same as reporting it once.
pub proof fn lemma_update_idempotent(old: Status, new: Status)
    ensures
        upgraded(upgraded(old, new), new) == upgraded(old, new),
{
}

/// The order in which two colours are reported for a key does not matter.
pub proof fn lemma_update_order_independent(s: Status, a: Status, b: Status)
    ensures
        upgraded(upgraded(s, a), b) == upgraded(upgraded(s, b), a),
{
}

/// A green key stays green whatever is reported next.
pub proof fn lemma_green_is_final(new: Status)
    ensures
        upgraded(Status::G, new) == Status::G,
{
}

/// The colour a key shows after the colours `ns` are reported on it in
/// order.
pub open spec fn upgraded_all(s: Status, ns: Seq<Status>) -> Status
    decreases ns.len(),
{
    if ns.len() == 0 {
        s
    } else {
        upgraded(upgraded_all(s, ns.drop_last()), ns.last())
    }
}

/// After any number of reports a key shows the highest-ranked of its first
/// colour and the reported ones.
pub proof fn lemma_update_sequence(s: Status, ns: Seq<Status>)
    ensures
        rank(upgraded_all(s, ns)) >= rank(s),
        forall|i: int| 0 <= i < ns.len() ==> rank(upgraded_all(s, ns)) >= rank(#[trigger] ns[i]),
        upgraded_all(s, ns) == s || ns.contains(upgraded_all(s, ns)),
    decreases ns.len(),
{
    if ns.len() > 0 {
        lemma_update_sequence(s, ns.drop_last());
        let prev = upgraded_all(s, ns.drop_last());
        assert forall|i: int| 0 <= i < ns.len() implies rank(upgraded_all(s, ns)) >= rank(
            #[trigger] ns[i],
        ) by {
            if i < ns.len() - 1 {
                assert(ns[i] == ns.drop_last()[i]);
            }
        }
        if upgraded_all(s, ns) != s {
            if upgraded_all(s, ns) == prev {
                let j = choose|j: int| 0 <= j < ns.drop_last().len() && ns.drop_last()[j] == prev;
                assert(ns[j] == prev);
            } else {
                assert(ns[ns.len() - 1] == ns.last());
            }
        }
    }
}

/// The order in which colours are reported on a key does not matter: the
/// same colours, in any order, leave the same colour.
pub proof fn lemma_update_any_order(s: Status, a: Seq<Status>, b: Seq<Status>)
    requires
        a.to_multiset() == b.to_multiset(),
    ensures
        upgraded_all(s, a) == upgraded_all(s, b),
{
    lemma_update_sequence(s, a);
    lemma_update_sequence(s, b);
    a.to_multiset_ensures();
    b.to_multiset_ensures();
    let ra = upgraded_all(s, a);
    let rb = upgraded_all(s, b);
    if ra != s {
        assert(a.to_multiset().count(ra) > 0);
        assert(b.contains(ra));
        let j = choose|j: int| 0 <= j < b.len() && b[j] == ra;
        assert(rank(rb) >= rank(b[j]));
    }
    if rb != s {
        assert(b.to_multiset().count(rb) > 0);
        assert(a.contains(rb));
        let j = choose|j: int| 0 <= j < a.len() && a[j] == rb;
        assert(rank(ra) >= rank(a[j]));
    }
}

/// Reporting the same colours again changes nothing.
pub proof fn lemma_update_sequence_idempotent(s: Status, ns: Seq<Status>)
    ensures
        upgraded_all(upgraded_all(s, ns), ns) == upgraded_all(s, ns),
{
    lemma_update_sequence(s, ns);
    let r = upgraded_all(s, ns);
    lemma_update_sequence(r, ns);
    let t = upgraded_all(r, ns);
    if t != r {
        let j = choose|j: int| 0 <= j < ns.len() && ns[j] == t;
        assert(rank(r) >= rank(ns[j]));
    }
}

} // verus!
