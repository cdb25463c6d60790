//! The sparse backing store: a hash table from tile positions to 64-bit
//! words.
//!
//! The table is the `HashMap` that `bevy::utils` exports, keyed by the pair
//! `(x, y)` of a position. Verus does not read it. This file gives its
//! entries a name and states, for each method that the library calls, what
//! that method does in terms of that name. These statements are taken on
//! trust from the source of the table; everything built on them is proved.

use crate::map::coords::ChunkTilePos;
use bevy::utils::HashMap;
use vstd::prelude::*;

verus! {

/// A table from tile positions to 64-bit words. It holds a `HashMap` of
/// `bevy::utils`, keyed by the pair `(x, y)` of a position.
#[verifier::external_body]
pub struct TileTable {
    inner: HashMap<(u32, u32), u64>,
}

/// The entries of a table: each key that the table holds, with its value.
pub uninterp spec fn table_entries(table: TileTable) -> Map<(u32, u32), u64>;

/// `HashMap::default`: a table without entries.
#[verifier::external_body]
fn table_new() -> (table: TileTable)
    ensures
        (table_entries(table) == Map::<(u32, u32), u64>::empty()),
{
    TileTable { inner: HashMap::default() }
}

/// `HashMap::get`: the value stored under `key`, or nothing when the table
/// has no such key.
#[verifier::external_body]
fn table_get(table: &TileTable, key: (u32, u32)) -> (value: Option<&u64>)
    ensures
        value == (if table_entries(*table).contains_key(key) {
            Some(&table_entries(*table)[key])
        } else {
            None
        }),
{
    table.inner.get(&key)
}

/// `HashMap::get_mut`: mutable access to the value stored under `key`, or
/// nothing when the table has no such key. The table holds afterwards what
/// it held before, but for what the caller writes into the value.
#[verifier::external_body]
fn table_get_mut(table: &mut TileTable, key: (u32, u32)) -> (value: Option<&mut u64>)
    ensures
        match value {
            Some(slot) => table_entries(*old(table)).contains_key(key) && *slot == table_entries(
                *old(table),
            )[key] && table_entries(*final(table)) == table_entries(*old(table)).insert(
                key,
                *final(slot),
            ),
            None => !table_entries(*old(table)).contains_key(key) && table_entries(*final(table))
                == table_entries(*old(table)),
        },
{
    table.inner.get_mut(&key)
}

/// `HashMap::insert`: stores `value` under `key`, in place of the value that
/// the key had, and returns that earlier value.
#[verifier::external_body]
fn table_insert(table: &mut TileTable, key: (u32, u32), value: u64) -> (previous: Option<u64>)
    ensures
        table_entries(*final(table)) == table_entries(*old(table)).insert(key, value),
        previous == (if table_entries(*old(table)).contains_key(key) {
            Some(table_entries(*old(table))[key])
        } else {
            None
        }),
{
    table.inner.insert(key, value)
}

/// `Clone::clone` of the table: a table with the same entries.
#[verifier::external_body]
fn table_clone(table: &TileTable) -> (copy: TileTable)
    ensures
        table_entries(copy) == table_entries(*table),
{
    TileTable { inner: table.inner.clone() }
}

/// The key under which a table stores the word of the tile at `pos`.
pub open spec fn table_key(pos: ChunkTilePos) -> (u32, u32) {
    (pos.x, pos.y)
}

impl View for TileTable {
    type V = Map<ChunkTilePos, u64>;

    /// The positions that the table holds, each with its word.
    open spec fn view(&self) -> Map<ChunkTilePos, u64> {
        Map::new(
            |pos: ChunkTilePos| table_entries(*self).contains_key(table_key(pos)),
            |pos: ChunkTilePos| table_entries(*self)[table_key(pos)],
        )
    }
}

impl TileTable {
    /// A table without entries.
    pub fn new() -> (table: TileTable)
        ensures
            table@ == Map::<ChunkTilePos, u64>::empty(),
    {
        let table = table_new();
        proof {
            assert(table@ =~= Map::<ChunkTilePos, u64>::empty());
        }
        table
    }

    /// The word stored for `pos`, if there is one.
    pub fn get(&self, pos: ChunkTilePos) -> (value: Option<&u64>)
        ensures
            value == (if self@.contains_key(pos) {
                Some(&self@[pos])
            } else {
                None
            }),
    {
        table_get(self, (pos.x, pos.y))
    }

    /// Mutable access to the word stored for `pos`, if there is one. The
    /// table changes only by what the caller writes into that word.
    pub fn get_mut(&mut self, pos: ChunkTilePos) -> (value: Option<&mut u64>)
        ensures
            match value {
                Some(slot) => old(self)@.contains_key(pos) && *slot == old(self)@[pos] && final(self)@
                    =~= old(self)@.insert(pos, *final(slot)),
                None => !old(self)@.contains_key(pos) && final(self)@ =~= old(self)@,
            },
    {
        table_get_mut(self, (pos.x, pos.y))
    }

    /// Stores `value` for `pos` and returns the word that was stored there.
    pub fn insert(&mut self, pos: ChunkTilePos, value: u64) -> (previous: Option<u64>)
        ensures
            final(self)@ == old(self)@.insert(pos, value),
            previous == (if old(self)@.contains_key(pos) {
                Some(old(self)@[pos])
            } else {
                None
            }),
    {
        let previous = table_insert(self, (pos.x, pos.y), value);
        proof {
            assert(final(self)@ =~= old(self)@.insert(pos, value));
        }
        previous
    }
}

impl Clone for TileTable {
    /// A table with the same entries.
    fn clone(&self) -> (copy: TileTable)
        ensures
            copy@ == self@,
    {
        table_clone(self)
    }
}

} // verus!
