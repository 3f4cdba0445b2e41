//! Level bookkeeping: the builder that collects a level's obstacles, and the
//! sweep that drops the obstacles whose time is over.

use vstd::prelude::*;

verus! {

broadcast use vstd::seq_lib::group_to_multiset_ensures;

/// Collects the obstacles of a level in the order they are added.
pub struct LevelBuilder<T> {
    obstacles: Vec<T>,
}

impl<T> View for LevelBuilder<T> {
    type V = Seq<T>;

    closed spec fn view(&self) -> Seq<T> {
        self.obstacles@
    }
}

impl<T> LevelBuilder<T> {
    /// A builder with no obstacles yet.
    pub fn new() -> (builder: Self)
        ensures
            builder@ == Seq::<T>::empty(),
    {
        Self { obstacles: Vec::new() }
    }

    /// Adds an obstacle after the ones already added.
    pub fn obstacle(&mut self, add: T) -> (builder: &mut Self)
        ensures
            builder@ == old(self)@.push(add),
            *final(self) == *final(builder),
    {
        self.obstacles.push(add);
        self
    }

    /// Takes back the obstacle added last, if there is one.
    pub fn pop_last_obstacle(&mut self) -> (popped: Option<T>)
        ensures
            old(self)@.len() == 0 ==> popped is None && final(self)@ == old(self)@,
            old(self)@.len() > 0 ==> popped == Some(old(self)@.last()) && final(self)@
                == old(self)@.drop_last(),
    {
        self.obstacles.pop()
    }

    /// Hands over the obstacles, in the order they were added, to the level
    /// being built.
    pub fn into_obstacles(self) -> (obstacles: Vec<T>)
        ensures
            obstacles@ == self@,
    {
        self.obstacles
    }
}

/// Adding an obstacle and then taking back the last one gives back that
/// obstacle and leaves the builder's obstacles as they were.
pub proof fn law_pop_undoes_add<T>(obstacles: Seq<T>, add: T)
    ensures
        obstacles.push(add).len() > 0,
        obstacles.push(add).last() == add,
        obstacles.push(add).drop_last() == obstacles,
{
    assert(obstacles.push(add).drop_last() =~= obstacles);
}

/// The sequence left by `Vec::swap_remove(i)`: the last element moves into
/// slot `i` and the sequence loses its last slot.
pub open spec fn swap_remove_at<A>(s: Seq<A>, i: int) -> Seq<A> {
    s.update(i, s.last()).drop_last()
}

/// Each obstacle paired with whether its time is over.
pub open spec fn entries<T>(items: Seq<T>, finished: Seq<bool>) -> Seq<(T, bool)> {
    Seq::new(items.len(), |j: int| (items[j], finished[j]))
}

/// The obstacles of a sequence of entries.
pub open spec fn items_of<T>(entries: Seq<(T, bool)>) -> Seq<T> {
    entries.map_values(|e: (T, bool)| e.0)
}

/// The sweep over the entries from slot `i` on: a finished entry is taken
/// out with a swap-remove, and the entry moved into its slot is looked at
/// next; an unfinished entry stays and the sweep moves past it. Gives the
/// entries that stay, in their final order, and the entries taken out, in
/// the order they were taken.
pub open spec fn sweep_spec<T>(entries: Seq<(T, bool)>, i: nat) -> (Seq<(T, bool)>, Seq<(T, bool)>)
    decreases entries.len() - i,
{
    if i >= entries.len() {
        (entries, Seq::empty())
    } else if entries[i as int].1 {
        let rest = sweep_spec(swap_remove_at(entries, i as int), i);
        (rest.0, seq![entries[i as int]] + rest.1)
    } else {
        sweep_spec(entries, i + 1)
    }
}

/// Removes from `items` the ones whose entry in `finished` is true, the way
/// a level does after each update: scanning from the front, a finished
/// obstacle is swap-removed and the obstacle moved into its slot is checked
/// in turn. Returns the removed obstacles in the order they were removed,
/// which is the order in which the level lets them act on their death.
pub fn sweep_finished<T>(items: &mut Vec<T>, finished: Vec<bool>) -> (removed: Vec<T>)
    requires
        finished@.len() == old(items)@.len(),
    ensures
        final(items)@ == items_of(sweep_spec(entries(old(items)@, finished@), 0).0),
        removed@ == items_of(sweep_spec(entries(old(items)@, finished@), 0).1),
{
    let ghost all = entries(items@, finished@);
    let mut flags = finished;
    let mut removed: Vec<T> = Vec::new();
    let ghost mut taken: Seq<(T, bool)> = Seq::empty();
    let mut i: usize = 0;
    while i < items.len()
        invariant
            flags@.len() == items@.len(),
            i <= items@.len(),
            removed@ == items_of(taken),
            sweep_spec(entries(items@, flags@), i as nat).0 == sweep_spec(all, 0).0,
            taken + sweep_spec(entries(items@, flags@), i as nat).1 == sweep_spec(all, 0).1,
        decreases items@.len() - i,
    {
        let ghost here = entries(items@, flags@);
        if flags[i] {
            let item = items.swap_remove(i);
            let flag = flags.swap_remove(i);
            proof {
                assert(entries(items@, flags@) =~= swap_remove_at(here, i as int));
                let rest = sweep_spec(swap_remove_at(here, i as int), i as nat);
                assert(sweep_spec(here, i as nat).1 == seq![here[i as int]] + rest.1);
                assert(taken.push(here[i as int]) + rest.1 =~= taken + (seq![here[i as int]]
                    + rest.1));
                taken = taken.push(here[i as int]);
            }
            removed.push(item);
            proof {
                assert(removed@ =~= items_of(taken));
            }
        } else {
            i = i + 1;
        }
    }
    proof {
        assert(entries(items@, flags@) =~= sweep_spec(all, 0).0);
        assert(taken =~= sweep_spec(all, 0).1);
        assert(items@ =~= items_of(entries(items@, flags@)));
    }
    removed
}

/// The sweep neither loses nor duplicates an obstacle: what stays and what
/// is taken out are, together, exactly the entries it started with; every
/// entry that stays is unfinished and every entry taken out is finished.
pub proof fn law_sweep_partitions<T>(entries: Seq<(T, bool)>, i: nat)
    requires
        i <= entries.len(),
        forall|j: int| 0 <= j < i ==> !(#[trigger] entries[j]).1,
    ensures
        sweep_spec(entries, i).0.to_multiset().add(sweep_spec(entries, i).1.to_multiset())
            =~= entries.to_multiset(),
        forall|j: int|
            0 <= j < sweep_spec(entries, i).0.len() ==> !(#[trigger] sweep_spec(entries, i).0[j]).1,
        forall|j: int|
            0 <= j < sweep_spec(entries, i).1.len() ==> (#[trigger] sweep_spec(entries, i).1[j]).1,
    decreases entries.len() - i,
{
    broadcast use vstd::multiset::group_multiset_axioms;

    if i >= entries.len() {
        assert(Seq::<(T, bool)>::empty().to_multiset() =~= vstd::multiset::Multiset::empty());
    } else if entries[i as int].1 {
        let next = swap_remove_at(entries, i as int);
        assert forall|j: int| 0 <= j < i implies !(#[trigger] next[j]).1 by {
            assert(next[j] == entries[j]);
        }
        law_sweep_partitions(next, i);
        lemma_swap_remove_multiset(entries, i as int);
        let rest = sweep_spec(next, i);
        assert((seq![entries[i as int]] + rest.1).to_multiset() =~= rest.1.to_multiset().insert(
            entries[i as int],
        )) by {
            vstd::seq_lib::lemma_multiset_commutative(seq![entries[i as int]], rest.1);
            assert(seq![entries[i as int]].to_multiset() =~= vstd::multiset::Multiset::empty().insert(
                entries[i as int],
            )) by {
                assert(seq![entries[i as int]] =~= Seq::<(T, bool)>::empty().push(
                    entries[i as int],
                ));
            }
        }
        let e = entries[i as int];
        vstd::seq_lib::to_multiset_contains(entries, e);
        assert(entries.contains(e));
        assert forall|x: (T, bool)|
            sweep_spec(entries, i).0.to_multiset().add(sweep_spec(entries, i).1.to_multiset()).count(
                x,
            ) == entries.to_multiset().count(x) by {
            assert(entries.to_multiset().remove(e).count(x) == entries.to_multiset().count(x) - if x
                == e {
                1int
            } else {
                0int
            });
        }
        assert forall|j: int|
            0 <= j < sweep_spec(entries, i).1.len() implies (#[trigger] sweep_spec(
            entries,
            i,
        ).1[j]).1 by {
            if j > 0 {
                assert(sweep_spec(entries, i).1[j] == rest.1[j - 1]);
            }
        }
    } else {
        law_sweep_partitions(entries, i + 1);
    }
}

/// Taking slot `i` out with a swap-remove takes exactly that element out of
/// the sequence's multiset.
pub proof fn lemma_swap_remove_multiset<A>(s: Seq<A>, i: int)
    requires
        0 <= i < s.len(),
    ensures
        swap_remove_at(s, i).to_multiset() =~= s.to_multiset().remove(s[i]),
{
    broadcast use vstd::multiset::group_multiset_axioms;

    let u = s.update(i, s.last());
    let t = u.drop_last();
    assert(u =~= t.push(s.last()));
    vstd::seq_lib::to_multiset_build(t, s.last());
    vstd::seq_lib::to_multiset_update(s, i, s.last());
    vstd::seq_lib::to_multiset_contains(s, s[i]);
    assert(s.contains(s[i]));
    assert forall|x: A| t.to_multiset().count(x) == s.to_multiset().remove(s[i]).count(x) by {
        assert(u.to_multiset().count(x) == t.to_multiset().count(x) + if x == s.last() {
            1nat
        } else {
            0nat
        });
    }
}

} // verus!
