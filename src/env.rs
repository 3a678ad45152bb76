//! The per-function slot table: each name gets an 8-byte slot, numbered in
//! order of first allocation, with no nested scopes.
use vstd::prelude::*;

verus! {

/// The views of a list of strings.
pub open spec fn str_views(v: Seq<String>) -> Seq<Seq<char>> {
    v.map_values(|s: String| s@)
}

/// The slot of `n` among `names`: the last position that holds it.
pub open spec fn slot_of(names: Seq<Seq<char>>, n: Seq<char>) -> Option<nat>
    decreases names.len(),
{
    if names.len() == 0 {
        None
    } else if names.last() == n {
        Some((names.len() - 1) as nat)
    } else {
        slot_of(names.drop_last(), n)
    }
}

/// The largest number of slots a table can hold: their offsets fit in `usize`.
pub open spec fn slot_limit() -> nat {
    (usize::MAX / 8) as nat
}

/// The names after allocating `n`: unchanged if it is bound, else `n` appended.
pub open spec fn alloc_names(names: Seq<Seq<char>>, n: Seq<char>) -> Seq<Seq<char>> {
    if slot_of(names, n) is Some {
        names
    } else {
        names.push(n)
    }
}

/// A slot that `slot_of` gives lies inside the table and holds the name.
pub proof fn lemma_slot_of_bounds(names: Seq<Seq<char>>, n: Seq<char>)
    ensures
        slot_of(names, n) matches Some(i) ==> i < names.len() && names[i as int] == n,
        slot_of(names, n) is None ==> !names.contains(n),
    decreases names.len(),
{
    if names.len() > 0 && names.last() != n {
        lemma_slot_of_bounds(names.drop_last(), n);
        if slot_of(names, n) is None {
            assert forall|j: int| 0 <= j < names.len() implies names[j] != n by {
                if j < names.len() - 1 {
                    assert(names.drop_last()[j] == names[j]);
                }
            }
        }
    }
}

/// Slots already given are kept when a name is appended.
pub proof fn lemma_slot_of_push(names: Seq<Seq<char>>, n: Seq<char>, m: Seq<char>)
    requires
        slot_of(names, n) is Some,
    ensures
        slot_of(names.push(m), n) == slot_of(names, n) || m == n,
{
    if m != n {
        assert(names.push(m).drop_last() =~= names);
    }
}

/// A function's slot table: the names bound so far, in slot order.
pub struct Env {
    names: Vec<String>,
}

impl Env {
    /// The bound names, in slot order.
    pub closed spec fn names(&self) -> Seq<Seq<char>> {
        str_views(self.names@)
    }

    pub fn new() -> (r: Env)
        ensures
            r.names() == Seq::<Seq<char>>::empty(),
    {
        let r = Env { names: Vec::new() };
        assert(r.names() =~= Seq::<Seq<char>>::empty());
        r
    }

    /// The number of bound names.
    pub fn len(&self) -> (r: usize)
        ensures
            r == self.names().len(),
    {
        self.names.len()
    }

    /// Whether no more names can be bound.
    pub fn is_full(&self) -> (r: bool)
        ensures
            r == (self.names().len() >= slot_limit()),
    {
        self.names.len() >= usize::MAX / 8
    }

    /// The byte offset of `var_name`'s slot, if it is bound.
    pub fn get_offset(&self, var_name: &str) -> (r: Option<usize>)
        requires
            self.names().len() <= slot_limit(),
        ensures
            r == (match slot_of(self.names(), var_name@) {
                Some(i) => Some((8 * i) as usize),
                None => None::<usize>,
            }),
    {
        let ghost all = self.names();
        let key = String::from_str(var_name);
        let mut i: usize = self.names.len();
        assert(all.subrange(0, i as int) =~= all);
        while i > 0
            invariant
                i <= self.names@.len(),
                all == self.names(),
                key@ == var_name@,
                all.len() <= slot_limit(),
                slot_of(all.subrange(0, i as int), var_name@) == slot_of(all, var_name@),
            decreases i,
        {
            let ghost pre = all.subrange(0, i as int);
            assert(pre.drop_last() =~= all.subrange(0, i - 1));
            assert(pre.last() == self.names@[i - 1]@);
            if self.names[i - 1] == key {
                return Some(8 * (i - 1));
            }
            i = i - 1;
        }
        assert(all.subrange(0, 0) =~= Seq::<Seq<char>>::empty());
        None
    }

    /// Binds `var_name` if it is not yet bound, and returns its byte offset.
    pub fn allocate(&mut self, var_name: &str) -> (r: usize)
        requires
            old(self).names().len() < slot_limit(),
        ensures
            final(self).names() == alloc_names(old(self).names(), var_name@),
            slot_of(final(self).names(), var_name@) == Some((r / 8) as nat),
            r % 8 == 0,
    {
        match self.get_offset(var_name) {
            Some(offset) => {
                proof {
                    lemma_slot_of_bounds(self.names(), var_name@);
                }
                offset
            },
            None => {
                let offset = 8 * self.names.len();
                let ghost pre = self.names();
                self.names.push(String::from_str(var_name));
                assert(self.names() =~= pre.push(var_name@));
                assert(self.names().drop_last() =~= pre);
                offset
            },
        }
    }
}

} // verus!

verus! {

/// Allocating a name never moves the slot of a name that is already bound,
/// however often either is allocated again.
pub proof fn lemma_alloc_keeps_slots(names: Seq<Seq<char>>, n: Seq<char>, m: Seq<char>)
    requires
        slot_of(names, n) is Some,
    ensures
        slot_of(alloc_names(names, m), n) == slot_of(names, n),
{
    if slot_of(names, m) is None {
        lemma_slot_of_bounds(names, m);
        lemma_slot_of_bounds(names, n);
        lemma_slot_of_push(names, n, m);
    }
}

/// A name allocated when unbound gets the next slot: its offset is eight
/// times the number of names bound before it.
pub proof fn lemma_alloc_fresh_slot(names: Seq<Seq<char>>, m: Seq<char>)
    requires
        slot_of(names, m) is None,
    ensures
        slot_of(alloc_names(names, m), m) == Some(names.len()),
{
}

} // verus!
