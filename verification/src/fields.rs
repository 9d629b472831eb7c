//! An insertion-ordered text-to-text mapping in which a later write to a name
//! replaces the earlier value.

use vstd::prelude::*;

verus! {

/// The (name, value) texts held by a sequence of string pairs.
pub open spec fn text_pairs(pairs: Seq<(String, String)>) -> Seq<(Seq<char>, Seq<char>)> {
    Seq::new(pairs.len(), |i: int| (pairs[i].0@, pairs[i].1@))
}

/// The mapping obtained by writing the pairs in order: the last value written
/// under a name is the one that stays.
pub open spec fn last_wins(pairs: Seq<(Seq<char>, Seq<char>)>) -> Map<Seq<char>, Seq<char>>
    decreases pairs.len(),
{
    if pairs.len() == 0 {
        Map::empty()
    } else {
        last_wins(pairs.drop_last()).insert(pairs.last().0, pairs.last().1)
    }
}

/// Whether some pair of `order` carries `name`.
pub open spec fn has_name(order: Seq<(Seq<char>, Seq<char>)>, name: Seq<char>) -> bool {
    exists|i: int| 0 <= i < order.len() && (#[trigger] order[i]).0 == name
}

/// The stored entries after `value` is written under `name`: a name that is
/// already stored keeps its place and takes the new value, a new name goes
/// to the end.
pub open spec fn write_pair(
    order: Seq<(Seq<char>, Seq<char>)>,
    name: Seq<char>,
    value: Seq<char>,
) -> Seq<(Seq<char>, Seq<char>)> {
    if has_name(order, name) {
        order.map_values(
            |p: (Seq<char>, Seq<char>)|
                if p.0 == name {
                    (name, value)
                } else {
                    p
                },
        )
    } else {
        order.push((name, value))
    }
}

/// The stored entries after the pairs are written in turn into an empty
/// mapping: one entry for each name, in the order in which the names first
/// occur, each with the last value written under it.
pub open spec fn written_in_turn(pairs: Seq<(Seq<char>, Seq<char>)>) -> Seq<
    (Seq<char>, Seq<char>),
>
    decreases pairs.len(),
{
    if pairs.len() == 0 {
        Seq::empty()
    } else {
        write_pair(written_in_turn(pairs.drop_last()), pairs.last().0, pairs.last().1)
    }
}

/// A name is in the mapping exactly when some pair carries it.
pub proof fn lemma_last_wins_names(pairs: Seq<(Seq<char>, Seq<char>)>, name: Seq<char>)
    ensures
        last_wins(pairs).contains_key(name) <==> exists|i: int|
            0 <= i < pairs.len() && (#[trigger] pairs[i]).0 == name,
    decreases pairs.len(),
{
    if pairs.len() > 0 {
        let front = pairs.drop_last();
        lemma_last_wins_names(front, name);
        if last_wins(pairs).contains_key(name) {
            if pairs.last().0 == name {
                assert(pairs[pairs.len() - 1].0 == name);
            } else {
                let i = choose|i: int| 0 <= i < front.len() && (#[trigger] front[i]).0 == name;
                assert(pairs[i].0 == name);
            }
        }
        if exists|i: int| 0 <= i < pairs.len() && (#[trigger] pairs[i]).0 == name {
            let i = choose|i: int| 0 <= i < pairs.len() && (#[trigger] pairs[i]).0 == name;
            if i < pairs.len() - 1 {
                assert(front[i].0 == name);
            }
        }
    }
}

/// The value kept under a name is that of the last pair which carries the
/// name: if no pair after position `i` has the name of pair `i`, the mapping
/// sends that name to the value of pair `i`.
pub proof fn lemma_last_wins_value(pairs: Seq<(Seq<char>, Seq<char>)>, i: int)
    requires
        0 <= i < pairs.len(),
        forall|j: int| i < j < pairs.len() ==> (#[trigger] pairs[j]).0 != pairs[i].0,
    ensures
        last_wins(pairs).contains_key(pairs[i].0),
        last_wins(pairs)[pairs[i].0] == pairs[i].1,
    decreases pairs.len(),
{
    if i < pairs.len() - 1 {
        let front = pairs.drop_last();
        assert(front[i] == pairs[i]);
        assert forall|j: int| i < j < front.len() implies (#[trigger] front[j]).0 != front[i].0 by {
            assert(front[j] == pairs[j]);
        }
        lemma_last_wins_value(front, i);
        assert(pairs.last() == pairs[pairs.len() - 1]);
    }
}

/// The entries stored after writing pairs in turn describe the last-wins
/// mapping of those pairs: no name is stored twice, every stored entry is a
/// pair of the mapping, and every name of the mapping is stored.
pub proof fn lemma_written_in_turn(pairs: Seq<(Seq<char>, Seq<char>)>)
    ensures
        forall|i: int, j: int|
            0 <= i < j < written_in_turn(pairs).len() ==> written_in_turn(pairs)[i].0
                != written_in_turn(pairs)[j].0,
        forall|i: int|
            0 <= i < written_in_turn(pairs).len() ==> last_wins(pairs).contains_pair(
                (#[trigger] written_in_turn(pairs)[i]).0,
                written_in_turn(pairs)[i].1,
            ),
        forall|name: Seq<char>| #[trigger]
            last_wins(pairs).contains_key(name) ==> has_name(written_in_turn(pairs), name),
    decreases pairs.len(),
{
    if pairs.len() > 0 {
        let front = pairs.drop_last();
        let earlier = written_in_turn(front);
        let name = pairs.last().0;
        let value = pairs.last().1;
        let now = written_in_turn(pairs);
        lemma_written_in_turn(front);
        assert(now == write_pair(earlier, name, value));
        if has_name(earlier, name) {
            assert(now.len() == earlier.len());
            assert forall|i: int| 0 <= i < now.len() implies (#[trigger] now[i]).0
                == earlier[i].0 && (now[i].0 == name ==> now[i].1 == value) && (now[i].0 != name
                ==> now[i].1 == earlier[i].1) by {}
            assert forall|q: Seq<char>| #[trigger]
                last_wins(pairs).contains_key(q) implies has_name(now, q) by {
                if q == name {
                    let i = choose|i: int| 0 <= i < earlier.len() && (#[trigger] earlier[i]).0 == q;
                    assert(now[i].0 == q);
                } else {
                    assert(last_wins(front).contains_key(q));
                    let i = choose|i: int| 0 <= i < earlier.len() && (#[trigger] earlier[i]).0 == q;
                    assert(now[i].0 == q);
                }
            }
        } else {
            assert(now.len() == earlier.len() + 1);
            assert(now[earlier.len() as int] == (name, value));
            assert forall|i: int| 0 <= i < earlier.len() implies (#[trigger] now[i])
                == earlier[i] && earlier[i].0 != name by {}
            assert forall|q: Seq<char>| #[trigger]
                last_wins(pairs).contains_key(q) implies has_name(now, q) by {
                if q == name {
                    assert(now[earlier.len() as int].0 == q);
                } else {
                    assert(last_wins(front).contains_key(q));
                    let i = choose|i: int| 0 <= i < earlier.len() && (#[trigger] earlier[i]).0 == q;
                    assert(now[i].0 == q);
                }
            }
        }
    }
}

/// A mapping from names to values. Entries are kept in the order in which
/// their names were first written.
pub struct FieldMap {
    entries: Vec<(String, String)>,
}

impl View for FieldMap {
    type V = Map<Seq<char>, Seq<char>>;

    closed spec fn view(&self) -> Map<Seq<char>, Seq<char>> {
        Map::new(
            |k: Seq<char>| exists|i: int| 0 <= i < self.entries@.len() && self.entries@[i].0@ == k,
            |k: Seq<char>|
                self.entries@[choose|i: int|
                    0 <= i < self.entries@.len() && self.entries@[i].0@ == k].1@,
        )
    }
}

impl FieldMap {
    /// The entries in storage order, as (name, value) texts.
    pub closed spec fn order(&self) -> Seq<(Seq<char>, Seq<char>)> {
        text_pairs(self.entries@)
    }

    /// No name is stored twice.
    pub closed spec fn wf(&self) -> bool {
        forall|i: int, j: int|
            0 <= i < j < self.entries@.len() ==> self.entries@[i].0@ != self.entries@[j].0@
    }

    /// In a well-formed mapping the stored entries and the mapping agree:
    /// names are pairwise distinct, every stored entry is a pair of the
    /// mapping, and every name of the mapping is stored.
    pub proof fn lemma_order_agrees(&self)
        requires
            self.wf(),
        ensures
            forall|i: int, j: int|
                0 <= i < j < self.order().len() ==> self.order()[i].0 != self.order()[j].0,
            forall|i: int|
                0 <= i < self.order().len() ==> #[trigger] self@.contains_pair(
                    self.order()[i].0,
                    self.order()[i].1,
                ),
            forall|k: Seq<char>| #[trigger]
                self@.contains_key(k) ==> exists|i: int|
                    0 <= i < self.order().len() && self.order()[i].0 == k,
    {
        assert forall|i: int| 0 <= i < self.order().len() implies #[trigger] self@.contains_pair(
            self.order()[i].0,
            self.order()[i].1,
        ) by {
            self.lemma_stored(i);
        }
        assert forall|k: Seq<char>| #[trigger] self@.contains_key(k) implies exists|i: int|
            0 <= i < self.order().len() && self.order()[i].0 == k by {
            let i = choose|i: int| 0 <= i < self.entries@.len() && self.entries@[i].0@ == k;
            assert(self.order()[i].0 == k);
        }
    }

    proof fn lemma_stored(&self, i: int)
        requires
            self.wf(),
            0 <= i < self.entries@.len(),
        ensures
            self@.contains_key(self.entries@[i].0@),
            self@[self.entries@[i].0@] == self.entries@[i].1@,
    {
        let k = self.entries@[i].0@;
        let j = choose|j: int| 0 <= j < self.entries@.len() && self.entries@[j].0@ == k;
        assert(j == i);
    }

    /// An empty mapping.
    pub fn new() -> (r: FieldMap)
        ensures
            r.wf(),
            r@ == Map::<Seq<char>, Seq<char>>::empty(),
            r.order() == Seq::<(Seq<char>, Seq<char>)>::empty(),
    {
        let r = FieldMap { entries: Vec::new() };
        assert(r@ =~= Map::<Seq<char>, Seq<char>>::empty());
        assert(r.order() =~= Seq::<(Seq<char>, Seq<char>)>::empty());
        r
    }

    /// The number of names stored.
    pub fn len(&self) -> (n: usize)
        ensures
            n == self.order().len(),
    {
        self.entries.len()
    }

    /// The entry at position `i` of the storage order.
    pub fn entry(&self, i: usize) -> (r: (&String, &String))
        requires
            i < self.order().len(),
        ensures
            (r.0@, r.1@) == self.order()[i as int],
    {
        (&self.entries[i].0, &self.entries[i].1)
    }

    /// The position at which `name` is stored, if it is.
    fn position(&self, name: &String) -> (r: Option<usize>)
        ensures
            match r {
                Some(i) => i < self.entries@.len() && self.entries@[i as int].0@ == name@,
                None => forall|j: int|
                    0 <= j < self.entries@.len() ==> self.entries@[j].0@ != name@,
            },
    {
        let mut i: usize = 0;
        while i < self.entries.len()
            invariant
                i <= self.entries@.len(),
                forall|j: int| 0 <= j < i ==> self.entries@[j].0@ != name@,
            decreases self.entries@.len() - i,
        {
            if self.entries[i].0 == *name {
                return Some(i);
            }
            i += 1;
        }
        None
    }

    /// The value stored under `name`, if there is one.
    pub fn get(&self, name: &String) -> (r: Option<&String>)
        requires
            self.wf(),
        ensures
            match r {
                Some(v) => self@.contains_key(name@) && v@ == self@[name@],
                None => !self@.contains_key(name@),
            },
    {
        match self.position(name) {
            Some(i) => {
                proof {
                    self.lemma_stored(i as int);
                }
                Some(&self.entries[i].1)
            },
            None => None,
        }
    }

    /// What one write does: `after` holds what `before` held, but for the
    /// entry at `at`, which carries `name` and `value`; `at` is the place of
    /// `name` in `before`, or the end where `before` does not store it.
    proof fn lemma_write(before: FieldMap, after: FieldMap, at: int, name: Seq<char>, value: Seq<char>)
        requires
            before.wf(),
            0 <= at <= before.entries@.len(),
            at < before.entries@.len() ==> before.entries@[at].0@ == name && after.entries@.len()
                == before.entries@.len(),
            at == before.entries@.len() ==> after.entries@.len() == at + 1 && forall|j: int|
                0 <= j < at ==> before.entries@[j].0@ != name,
            after.entries@[at].0@ == name,
            after.entries@[at].1@ == value,
            forall|j: int|
                0 <= j < before.entries@.len() && j != at ==> after.entries@[j]
                    == before.entries@[j],
        ensures
            after.wf(),
            after@ == before@.insert(name, value),
            after.order() == write_pair(before.order(), name, value),
    {
        let n = before.entries@.len() as int;
        assert(after.wf());
        assert forall|q: Seq<char>| #[trigger]
            after@.contains_key(q) == before@.insert(name, value).contains_key(q) by {
            if after@.contains_key(q) {
                let j = choose|j: int| 0 <= j < after.entries@.len() && after.entries@[j].0@ == q;
                if j != at {
                    assert(before.entries@[j].0@ == q);
                }
            }
            if before@.contains_key(q) {
                let j = choose|j: int|
                    0 <= j < before.entries@.len() && before.entries@[j].0@ == q;
                assert(after.entries@[j].0@ == q);
            }
            if q == name {
                assert(after.entries@[at].0@ == q);
            }
        }
        assert forall|q: Seq<char>| after@.contains_key(q) implies #[trigger] after@[q]
            == before@.insert(name, value)[q] by {
            let j = choose|j: int| 0 <= j < after.entries@.len() && after.entries@[j].0@ == q;
            after.lemma_stored(j);
            if j != at {
                before.lemma_stored(j);
            }
        }
        assert(after@ =~= before@.insert(name, value));
        if at < n {
            assert(before.order()[at].0 == name);
            assert(has_name(before.order(), name));
        } else {
            assert(!has_name(before.order(), name)) by {
                if has_name(before.order(), name) {
                    let j = choose|j: int|
                        0 <= j < before.order().len() && (#[trigger] before.order()[j]).0 == name;
                    assert(before.entries@[j].0@ == name);
                }
            }
        }
        assert(after.order() =~= write_pair(before.order(), name, value));
    }

    /// Writes `value` under `name`. A value already stored under that name is
    /// replaced and keeps its place in the order; a new name goes to the end.
    pub fn insert(&mut self, name: String, value: String)
        requires
            old(self).wf(),
        ensures
            final(self).wf(),
            final(self)@ == old(self)@.insert(name@, value@),
            final(self).order() == write_pair(old(self).order(), name@, value@),
    {
        let ghost before = *self;
        let ghost key = name@;
        let ghost text = value@;
        match self.position(&name) {
            Some(i) => {
                self.entries.set(i, (name, value));
                proof {
                    Self::lemma_write(before, *self, i as int, key, text);
                }
            },
            None => {
                self.entries.push((name, value));
                proof {
                    Self::lemma_write(before, *self, before.entries@.len() as int, key, text);
                }
            },
        }
    }
}

} // verus!
