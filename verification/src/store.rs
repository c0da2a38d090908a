//! Keyed ledger store: the addressable `(entity, offset) -> value`
//! persistence primitive underlying every ledger.
//!
//! Each logical entity (request, offer, deal) reserves a small fixed number
//! of field offsets used as a flat record layout. A read of a key that was
//! never written returns the sentinel value `0`.

use vstd::prelude::*;

verus! {

/// One durable write: a value at an `(entity, offset)` address.
pub struct StoreEntry {
    pub entity: u64,
    pub offset: u64,
    pub value: u64,
}

/// The map described by a journal of writes, later writes winning.
pub open spec fn entries_map(s: Seq<StoreEntry>) -> Map<(u64, u64), u64>
    decreases s.len(),
{
    if s.len() == 0 {
        Map::empty()
    } else {
        entries_map(s.drop_last()).insert((s.last().entity, s.last().offset), s.last().value)
    }
}

/// What a ledger sees at an address: the stored value, or the sentinel `0`
/// for an address that was never written.
pub open spec fn read(m: Map<(u64, u64), u64>, entity: u64, offset: u64) -> u64 {
    if m.contains_key((entity, offset)) {
        m[(entity, offset)]
    } else {
        0
    }
}

/// A durable key-value store addressed by `(entity, offset)` pairs,
/// kept as a journal of writes.
pub struct KeyedStore {
    entries: Vec<StoreEntry>,
}

impl View for KeyedStore {
    type V = Map<(u64, u64), u64>;

    closed spec fn view(&self) -> Map<(u64, u64), u64> {
        entries_map(self.entries@)
    }
}

impl KeyedStore {
    /// An empty store: every address reads as unset.
    pub fn new() -> (s: Self)
        ensures
            s@ == Map::<(u64, u64), u64>::empty(),
    {
        KeyedStore { entries: Vec::new() }
    }

    /// Read the value at `(entity, offset)`; `0` if never written.
    pub fn get(&self, entity: u64, offset: u64) -> (r: u64)
        ensures
            r == read(self@, entity, offset),
    {
        let n = self.entries.len();
        proof {
            assert(self.entries@.take(n as int) =~= self.entries@);
        }
        let mut i: usize = n;
        while i > 0
            invariant
                i <= n,
                n == self.entries@.len(),
                read(entries_map(self.entries@), entity, offset) == read(
                    entries_map(self.entries@.take(i as int)),
                    entity,
                    offset,
                ),
            decreases i,
        {
            i = i - 1;
            let e = &self.entries[i];
            proof {
                assert(self.entries@.take(i + 1).drop_last() =~= self.entries@.take(i as int));
                assert(self.entries@.take(i + 1).last() == self.entries@[i as int]);
            }
            if e.entity == entity && e.offset == offset {
                return e.value;
            }
        }
        0
    }

    /// Durably write `value` at `(entity, offset)`, overwriting any
    /// earlier value there and leaving every other address unchanged.
    pub fn set(&mut self, entity: u64, offset: u64, value: u64)
        ensures
            final(self)@ == old(self)@.insert((entity, offset), value),
    {
        self.entries.push(StoreEntry { entity, offset, value });
        proof {
            assert(self.entries@.drop_last() =~= old(self).entries@);
        }
    }
}

} // verus!
