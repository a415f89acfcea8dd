//! The order of the coming events: a queue that hands out the earliest
//! entry, and among entries of one time the one that came in first.

use vstd::prelude::*;
use crate::model::Time;
use crate::model::unit::Unit;

verus! {

/// A unit and the time of its next event.
#[derive(Clone, Copy, Debug, PartialEq, Eq, Structural)]
pub struct Entry {
    /// When the event takes place.
    pub time: Time,
    /// Whose event it is.
    pub unit: Unit,
}

/// The times never go down along the sequence.
pub open spec fn sorted(s: Seq<Entry>) -> bool {
    forall|i: int, j: int| 0 <= i < j < s.len() ==> s[i].time <= s[j].time
}

/// How many entries stand in front of the first one that is later than `t`.
pub open spec fn rank(s: Seq<Entry>, t: Time) -> int
    decreases s.len(),
{
    if s.len() == 0 || s[0].time > t {
        0
    } else {
        1 + rank(s.drop_first(), t)
    }
}

/// The queue with `e` put behind every entry that is not later than it.
pub open spec fn enqueue(s: Seq<Entry>, e: Entry) -> Seq<Entry> {
    s.insert(rank(s, e.time), e)
}

/// How many of the entries are servers.
pub open spec fn servers_in(s: Seq<Entry>) -> nat
    decreases s.len(),
{
    if s.len() == 0 {
        0
    } else {
        (if s[0].unit is Svc {
            1nat
        } else {
            0nat
        }) + servers_in(s.drop_first())
    }
}

/// The rank is a place in the queue; nothing in front of it is later than
/// `t`, and what stands at it is.
pub proof fn lemma_rank(s: Seq<Entry>, t: Time)
    ensures
        0 <= rank(s, t) <= s.len(),
        forall|j: int| 0 <= j < rank(s, t) ==> (#[trigger] s[j]).time <= t,
        rank(s, t) < s.len() ==> s[rank(s, t)].time > t,
    decreases s.len(),
{
    if s.len() == 0 || s[0].time > t {
    } else {
        let rest = s.drop_first();
        lemma_rank(rest, t);
        assert forall|j: int| 0 <= j < rank(s, t) implies (#[trigger] s[j]).time <= t by {
            if j > 0 {
                assert(s[j] == rest[j - 1]);
            }
        }
    }
}

/// A place with nothing later than `t` in front of it and something later
/// at it is the rank.
pub proof fn lemma_rank_found(s: Seq<Entry>, t: Time, k: int)
    requires
        0 <= k <= s.len(),
        forall|j: int| 0 <= j < k ==> (#[trigger] s[j]).time <= t,
        k < s.len() ==> s[k].time > t,
    ensures
        rank(s, t) == k,
    decreases s.len(),
{
    if k == 0 {
    } else {
        let rest = s.drop_first();
        lemma_rank_found(rest, t, k - 1);
    }
}

/// What stands where after an entry came in.
pub proof fn lemma_enqueue_places(s: Seq<Entry>, e: Entry)
    ensures
        enqueue(s, e).len() == s.len() + 1,
        0 <= rank(s, e.time) <= s.len(),
        enqueue(s, e)[rank(s, e.time)] == e,
        forall|i: int| 0 <= i < rank(s, e.time) ==> #[trigger] enqueue(s, e)[i] == s[i],
        forall|i: int|
            rank(s, e.time) < i <= s.len() ==> #[trigger] enqueue(s, e)[i] == s[i - 1],
{
    lemma_rank(s, e.time);
}

/// A sorted queue stays sorted when an entry comes in.
pub proof fn lemma_enqueue_sorted(s: Seq<Entry>, e: Entry)
    requires
        sorted(s),
    ensures
        sorted(enqueue(s, e)),
{
    lemma_rank(s, e.time);
}

/// No two entries name the same unit.
pub open spec fn units_distinct(s: Seq<Entry>) -> bool {
    forall|i: int, j: int|
        0 <= i < j < s.len() ==> (#[trigger] s[i]).unit != (#[trigger] s[j]).unit
}

/// What holds of every entry, and of the one that comes in, holds of every
/// entry afterwards.
pub proof fn lemma_enqueue_all(s: Seq<Entry>, e: Entry, p: spec_fn(Entry) -> bool)
    requires
        forall|i: int| 0 <= i < s.len() ==> p(#[trigger] s[i]),
        p(e),
    ensures
        forall|i: int| 0 <= i < enqueue(s, e).len() ==> p(#[trigger] enqueue(s, e)[i]),
{
    lemma_enqueue_places(s, e);
}

/// A unit that was not in the queue is in it once after it came in.
pub proof fn lemma_enqueue_distinct(s: Seq<Entry>, e: Entry)
    requires
        units_distinct(s),
        forall|i: int| 0 <= i < s.len() ==> (#[trigger] s[i]).unit != e.unit,
    ensures
        units_distinct(enqueue(s, e)),
{
    lemma_enqueue_places(s, e);
}

/// The count of servers after an entry came in.
pub proof fn lemma_servers_in_enqueue(s: Seq<Entry>, e: Entry)
    ensures
        enqueue(s, e).len() == s.len() + 1,
        servers_in(enqueue(s, e)) == servers_in(s) + (if e.unit is Svc {
            1nat
        } else {
            0nat
        }),
{
    lemma_rank(s, e.time);
    lemma_servers_in_insert(s, rank(s, e.time), e);
}

/// An entry that comes in raises the count of servers by one if it is a
/// server, and not at all if it is not.
pub proof fn lemma_servers_in_insert(s: Seq<Entry>, k: int, e: Entry)
    requires
        0 <= k <= s.len(),
    ensures
        servers_in(s.insert(k, e)) == servers_in(s) + (if e.unit is Svc {
            1nat
        } else {
            0nat
        }),
    decreases k,
{
    let r = s.insert(k, e);
    if k == 0 {
        assert(r.drop_first() =~= s);
    } else {
        assert(r.drop_first() =~= s.drop_first().insert(k - 1, e));
        lemma_servers_in_insert(s.drop_first(), k - 1, e);
    }
}

/// No queue holds more servers than entries.
pub proof fn lemma_servers_in_bound(s: Seq<Entry>)
    ensures
        servers_in(s) <= s.len(),
    decreases s.len(),
{
    if s.len() > 0 {
        lemma_servers_in_bound(s.drop_first());
    }
}

/// The queue of the coming events.
#[derive(Clone, Debug)]
pub struct Schedule {
    entries: Vec<Entry>,
}

impl View for Schedule {
    type V = Seq<Entry>;

    /// The entries in the order in which they will leave.
    closed spec fn view(&self) -> Seq<Entry> {
        self.entries@
    }
}

impl Schedule {
    /// A queue with nothing in it.
    pub fn new() -> (q: Self)
        ensures
            q@ == Seq::<Entry>::empty(),
    {
        Schedule { entries: Vec::new() }
    }

    /// How many entries wait.
    pub fn len(&self) -> (n: usize)
        ensures
            n == self@.len(),
    {
        self.entries.len()
    }

    /// The entry that leaves next, which stays.
    pub fn peek(&self) -> (e: Option<Entry>)
        ensures
            e == if self@.len() > 0 {
                Some(self@[0])
            } else {
                None
            },
    {
        if self.entries.len() > 0 {
            Some(self.entries[0])
        } else {
            None
        }
    }

    /// Takes out the entry that leaves next.
    pub fn pop(&mut self) -> (e: Option<Entry>)
        ensures
            old(self)@.len() > 0 ==> e == Some(old(self)@[0]) && final(self)@ == old(
                self)@.drop_first(),
            old(self)@.len() == 0 ==> e.is_none() && final(self)@ == old(self)@,
    {
        if self.entries.len() > 0 {
            let e = self.entries.remove(0);
            Some(e)
        } else {
            None
        }
    }

    /// Puts `e` behind every entry that is not later than it.
    pub fn push(&mut self, e: Entry)
        ensures
            final(self)@ == enqueue(old(self)@, e),
    {
        let mut k: usize = 0;
        while k < self.entries.len() && self.entries[k].time <= e.time
            invariant
                k <= self.entries.len(),
                self.entries@ == old(self).entries@,
                forall|j: int| 0 <= j < k ==> (#[trigger] self.entries@[j]).time <= e.time,
            decreases self.entries.len() - k,
        {
            k += 1;
        }
        proof {
            lemma_rank_found(self.entries@, e.time, k as int);
        }
        self.entries.insert(k, e);
    }

    /// Takes out every entry.
    pub fn clear(&mut self)
        ensures
            final(self)@ == Seq::<Entry>::empty(),
    {
        self.entries.clear();
    }
}

} // verus!
