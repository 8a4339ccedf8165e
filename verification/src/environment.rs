//! The environment of a process: names and values, in the order of the names.

use vstd::prelude::*;

verus! {

/// Whether one name comes before another one, byte by byte.
pub open spec fn precedes(left: Seq<u8>, right: Seq<u8>) -> bool
    decreases left.len(),
{
    if right.len() == 0 {
        false
    } else if left.len() == 0 {
        true
    } else if left[0] != right[0] {
        left[0] < right[0]
    } else {
        precedes(left.drop_first(), right.drop_first())
    }
}

proof fn lemma_precedes_is_transitive(a: Seq<u8>, b: Seq<u8>, c: Seq<u8>)
    requires
        precedes(a, b),
        precedes(b, c),
    ensures
        precedes(a, c),
    decreases a.len(),
{
    if a.len() > 0 && a[0] == b[0] && b[0] == c[0] {
        lemma_precedes_is_transitive(a.drop_first(), b.drop_first(), c.drop_first());
    }
}

proof fn lemma_precedes_is_strict(a: Seq<u8>, b: Seq<u8>)
    ensures
        !(precedes(a, b) && precedes(b, a)),
        !precedes(a, a),
    decreases a.len(),
{
    if a.len() > 0 {
        lemma_precedes_is_strict(a.drop_first(), b.drop_first());
    }
}

/// How two names stand to each other.
#[derive(Clone, Copy, PartialEq, Eq, Structural)]
enum Order {
    Before,
    Same,
    Behind,
}

fn order(left: &Vec<u8>, right: &Vec<u8>) -> (result: Order)
    ensures
        match result {
            Order::Before => precedes(left@, right@),
            Order::Same => left@ == right@,
            Order::Behind => precedes(right@, left@),
        },
{
    let mut i: usize = 0;
    assert(left@.skip(0) =~= left@);
    assert(right@.skip(0) =~= right@);
    while i < left.len() && i < right.len()
        invariant
            i <= left.len(),
            i <= right.len(),
            left@.take(i as int) == right@.take(i as int),
            precedes(left@, right@) == precedes(left@.skip(i as int), right@.skip(i as int)),
            precedes(right@, left@) == precedes(right@.skip(i as int), left@.skip(i as int)),
        decreases left.len() - i,
    {
        let ghost l = left@.skip(i as int);
        let ghost r = right@.skip(i as int);
        assert(l[0] == left@[i as int]);
        assert(r[0] == right@[i as int]);
        if left[i] < right[i] {
            return Order::Before;
        }
        if left[i] > right[i] {
            return Order::Behind;
        }
        proof {
            assert(l.drop_first() =~= left@.skip(i + 1));
            assert(r.drop_first() =~= right@.skip(i + 1));
            assert(left@.take(i + 1) =~= left@.take(i as int).push(left@[i as int]));
            assert(right@.take(i + 1) =~= right@.take(i as int).push(right@[i as int]));
        }
        i = i + 1;
    }
    if left.len() == right.len() {
        assert(left@ =~= left@.take(i as int));
        assert(right@ =~= right@.take(i as int));
        Order::Same
    } else if left.len() < right.len() {
        Order::Before
    } else {
        Order::Behind
    }
}

/// Names and values, each name once, in the order of the names.
#[derive(Debug)]
pub struct Environment {
    entries: Vec<(Vec<u8>, Vec<u8>)>,
}

/// The views of some entries.
pub open spec fn entry_views(entries: Seq<(Vec<u8>, Vec<u8>)>) -> Seq<(Seq<u8>, Seq<u8>)> {
    Seq::new(entries.len(), |i: int| (entries[i].0@, entries[i].1@))
}

/// Whether the entries give the name a value.
pub open spec fn assigns(entries: Seq<(Seq<u8>, Seq<u8>)>, name: Seq<u8>, value: Seq<u8>) -> bool {
    exists|i: int| 0 <= i < entries.len() && #[trigger] entries[i] == (name, value)
}

/// Whether the names come in their order, each once.
pub open spec fn ordered(entries: Seq<(Seq<u8>, Seq<u8>)>) -> bool {
    forall|i: int, j: int|
        0 <= i < j < entries.len() ==> precedes(#[trigger] entries[i].0, #[trigger] entries[j].0)
}

impl View for Environment {
    type V = Seq<(Seq<u8>, Seq<u8>)>;

    closed spec fn view(&self) -> Seq<(Seq<u8>, Seq<u8>)> {
        entry_views(self.entries@)
    }
}

impl Environment {
    #[verifier::type_invariant]
    spec fn in_order(self) -> bool {
        ordered(entry_views(self.entries@))
    }

    pub fn new() -> (environment: Environment)
        ensures
            environment@ == Seq::<(Seq<u8>, Seq<u8>)>::empty(),
    {
        let environment = Environment { entries: Vec::new() };
        assert(environment@ =~= seq![]);
        environment
    }

    /// Gives a name its value, in place of the one it had.
    pub fn insert(&mut self, name: Vec<u8>, value: Vec<u8>)
        ensures
            ordered(final(self)@),
            forall|n: Seq<u8>, v: Seq<u8>| #[trigger]
                assigns(final(self)@, n, v) <==> if n == name@ {
                    v == value@
                } else {
                    assigns(old(self)@, n, v)
                },
    {
        proof {
            use_type_invariant(&*self);
        }
        let mut entries: Vec<(Vec<u8>, Vec<u8>)> = Vec::new();
        std::mem::swap(&mut entries, &mut self.entries);
        insert_entry(&mut entries, name, value);
        *self = Environment { entries };
    }

    /// The entries, in their order.
    pub fn entries(&self) -> (entries: &Vec<(Vec<u8>, Vec<u8>)>)
        ensures
            entry_views(entries@) == self@,
            ordered(self@),
    {
        proof {
            use_type_invariant(self);
        }
        &self.entries
    }
}

fn insert_entry(entries: &mut Vec<(Vec<u8>, Vec<u8>)>, name: Vec<u8>, value: Vec<u8>)
    requires
        ordered(entry_views(old(entries)@)),
    ensures
        ordered(entry_views(final(entries)@)),
        forall|n: Seq<u8>, v: Seq<u8>| #[trigger]
            assigns(entry_views(final(entries)@), n, v) <==> if n == name@ {
                v == value@
            } else {
                assigns(entry_views(old(entries)@), n, v)
            },
{
    let ghost before = entry_views(entries@);
    let ghost wanted = (name@, value@);
    let mut i: usize = 0;
    while i < entries.len()
        invariant
            i <= entries.len(),
            before == entry_views(entries@),
            before == entry_views(old(entries)@),
            wanted == (name@, value@),
            ordered(before),
            forall|k: int| 0 <= k < i ==> precedes(#[trigger] before[k].0, name@),
        decreases entries.len() - i,
    {
        assert(before[i as int] == (entries@[i as int].0@, entries@[i as int].1@));
        match order(&entries[i].0, &name) {
            Order::Before => {
                i = i + 1;
            },
            Order::Same => {
                entries.set(i, (name, value));
                let ghost after = entry_views(entries@);
                proof {
                    assert(after =~= before.update(i as int, wanted));
                    assert forall|a: int, b: int| 0 <= a < b < after.len() implies precedes(
                        #[trigger] after[a].0,
                        #[trigger] after[b].0,
                    ) by {
                        assert(after[a].0 == before[a].0);
                        assert(after[b].0 == before[b].0);
                    }
                    lemma_replaced(before, after, i as int, wanted);
                }
                return ;
            },
            Order::Behind => {
                entries.insert(i, (name, value));
                let ghost after = entry_views(entries@);
                proof {
                    assert(after =~= before.insert(i as int, wanted));
                    lemma_inserted(before, after, i as int, wanted);
                }
                return ;
            },
        }
    }
    entries.push((name, value));
    let ghost after = entry_views(entries@);
    proof {
        assert(after =~= before.insert(i as int, wanted));
        lemma_inserted(before, after, i as int, wanted);
    }
}

proof fn lemma_replaced(
    before: Seq<(Seq<u8>, Seq<u8>)>,
    after: Seq<(Seq<u8>, Seq<u8>)>,
    at: int,
    entry: (Seq<u8>, Seq<u8>),
)
    requires
        ordered(before),
        0 <= at < before.len(),
        before[at].0 == entry.0,
        after == before.update(at, entry),
    ensures
        forall|n: Seq<u8>, v: Seq<u8>| #[trigger]
            assigns(after, n, v) <==> if n == entry.0 {
                v == entry.1
            } else {
                assigns(before, n, v)
            },
{
    assert forall|n: Seq<u8>, v: Seq<u8>| #[trigger] assigns(after, n, v) <==> if n == entry.0 {
        v == entry.1
    } else {
        assigns(before, n, v)
    } by {
        assert(after[at] == entry);
        if assigns(after, n, v) {
            let k = choose|k: int| 0 <= k < after.len() && #[trigger] after[k] == (n, v);
            if k != at {
                assert(before[k] == (n, v));
                lemma_precedes_is_strict(before[at].0, n);
                assert(k < at ==> precedes(before[k].0, before[at].0));
                assert(at < k ==> precedes(before[at].0, before[k].0));
            }
        }
        if n != entry.0 && assigns(before, n, v) {
            let k = choose|k: int| 0 <= k < before.len() && #[trigger] before[k] == (n, v);
            assert(after[k] == (n, v));
        }
    }
}

proof fn lemma_inserted(
    before: Seq<(Seq<u8>, Seq<u8>)>,
    after: Seq<(Seq<u8>, Seq<u8>)>,
    at: int,
    entry: (Seq<u8>, Seq<u8>),
)
    requires
        ordered(before),
        0 <= at <= before.len(),
        forall|k: int| 0 <= k < at ==> precedes(#[trigger] before[k].0, entry.0),
        at < before.len() ==> precedes(entry.0, before[at].0),
        after == before.insert(at, entry),
    ensures
        ordered(after),
        forall|n: Seq<u8>, v: Seq<u8>| #[trigger]
            assigns(after, n, v) <==> if n == entry.0 {
                v == entry.1
            } else {
                assigns(before, n, v)
            },
{
    assert forall|k: int| at <= k < before.len() implies precedes(
        entry.0,
        #[trigger] before[k].0,
    ) by {
        if k > at {
            assert(precedes(before[at].0, before[k].0));
            lemma_precedes_is_transitive(entry.0, before[at].0, before[k].0);
        }
    }
    assert forall|i: int, j: int| 0 <= i < j < after.len() implies precedes(
        #[trigger] after[i].0,
        #[trigger] after[j].0,
    ) by {
        if i < at {
            assert(after[i] == before[i]);
            if j < at {
                assert(after[j] == before[j]);
            } else if j > at {
                assert(after[j] == before[j - 1]);
            }
        } else if i == at {
            assert(after[j] == before[j - 1]);
        } else {
            assert(after[i] == before[i - 1]);
            assert(after[j] == before[j - 1]);
        }
    }
    assert forall|n: Seq<u8>, v: Seq<u8>| #[trigger] assigns(after, n, v) <==> if n == entry.0 {
        v == entry.1
    } else {
        assigns(before, n, v)
    } by {
        assert(after[at] == entry);
        assert(entry == (entry.0, entry.1));
        if assigns(after, n, v) {
            let k = choose|k: int| 0 <= k < after.len() && #[trigger] after[k] == (n, v);
            if k != at {
                let old_k = if k < at {
                    k
                } else {
                    k - 1
                };
                assert(before[old_k] == (n, v));
                if k < at {
                    assert(precedes(before[old_k].0, entry.0));
                } else {
                    assert(precedes(entry.0, before[old_k].0));
                }
                lemma_precedes_is_strict(entry.0, n);
            }
        }
        if n != entry.0 && assigns(before, n, v) {
            let k = choose|k: int| 0 <= k < before.len() && #[trigger] before[k] == (n, v);
            let new_k = if k < at {
                k
            } else {
                k + 1
            };
            assert(after[new_k] == (n, v));
        }
    }
}

} // verus!
