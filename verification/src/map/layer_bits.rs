//! The bits that identify the layers of a tile map.
//!
//! A map has at most 32 layers. The layer with index `i` is identified by
//! the mask in which bit `i` alone is set; a mask of several bits names a
//! set of layers.

use vstd::prelude::*;

verus! {

/// The largest number of layers that a mask of 32 bits tells apart.
pub const MAX_LAYERS: u32 = 32;

/// The mask of the layer that is selected when none was chosen: bit 0.
pub const DEFAULT_LAYER: u32 = 1;

/// The mask of the layer with the given index: bit `index` alone.
pub open spec fn spec_layer_bit(index: u32) -> u32 {
    1u32 << index
}

/// The mask of the first `count` layers together.
pub open spec fn spec_all_layer_bits(count: u32) -> u32 {
    if count >= 32 {
        0xffff_ffffu32
    } else {
        ((1u32 << count) - 1) as u32
    }
}

/// Whether exactly one bit of `bits` is set.
pub open spec fn is_single_bit(bits: u32) -> bool {
    bits != 0 && bits & ((bits - 1) as u32) == 0
}

/// The bitwise OR of all the masks of `bits`.
pub open spec fn union_of_bits(bits: Seq<u32>) -> u32
    decreases bits.len(),
{
    if bits.len() == 0 {
        0
    } else {
        union_of_bits(bits.drop_last()) | bits.last()
    }
}

/// The masks of the first `count` layers, in the order of their indices.
pub open spec fn layer_table(count: u32) -> Seq<u32> {
    Seq::new(count as nat, |index: int| spec_layer_bit(index as u32))
}

/// Whether `bits` can identify the layers of a map whose mask of all layers
/// is `all`: every mask has exactly one bit set, no two masks are equal, and
/// together they make `all`.
pub open spec fn valid_layer_bits(bits: Seq<u32>, all: u32) -> bool {
    &&& forall|i: int| 0 <= i < bits.len() ==> is_single_bit(#[trigger] bits[i])
    &&& forall|i: int, j: int| 0 <= i < j < bits.len() ==> bits[i] != bits[j]
    &&& union_of_bits(bits) == all
}

/// Whether the mask `mask` holds every layer of the mask `layers`.
pub open spec fn mask_holds(mask: u32, layers: u32) -> bool {
    mask & layers == layers
}

/// Whether the mask `mask` holds every layer of the mask `layers`: the test
/// by which a set of layers is filtered.
pub fn mask_contains(mask: u32, layers: u32) -> (held: bool)
    ensures
        held == mask_holds(mask, layers),
{
    mask & layers == layers
}

/// The mask of the layer with the given index, or nothing when the index is
/// beyond the 32 layers that a mask tells apart.
pub fn layer_bit(index: u32) -> (bits: Option<u32>)
    ensures
        bits == (if index < MAX_LAYERS {
            Some(spec_layer_bit(index))
        } else {
            None
        }),
{
    if index < MAX_LAYERS {
        Some(1u32 << index)
    } else {
        None
    }
}

/// The mask of the first `count` layers together, or nothing when there are
/// more than 32.
pub fn all_layer_bits(count: u32) -> (bits: Option<u32>)
    ensures
        bits == (if count <= MAX_LAYERS {
            Some(spec_all_layer_bits(count))
        } else {
            None
        }),
{
    if count > MAX_LAYERS {
        None
    } else if count == MAX_LAYERS {
        Some(0xffff_ffffu32)
    } else {
        proof {
            assert(1u32 << count >= 1) by (bit_vector)
                requires
                    count < 32,
            ;
        }
        Some((1u32 << count) - 1)
    }
}

/// Whether exactly one bit of `bits` is set.
pub fn has_single_bit(bits: u32) -> (single: bool)
    ensures
        single == is_single_bit(bits),
{
    bits != 0 && bits & (bits - 1) == 0
}

/// A mask with one bit set shares that bit with a union of such masks
/// exactly when it is one of them.
proof fn lemma_union_holds_bit(bits: Seq<u32>, bit: u32)
    requires
        forall|i: int| 0 <= i < bits.len() ==> is_single_bit(#[trigger] bits[i]),
        is_single_bit(bit),
    ensures
        union_of_bits(bits) & bit != 0 <==> exists|i: int| 0 <= i < bits.len() && bits[i] == bit,
    decreases bits.len(),
{
    if bits.len() == 0 {
        assert(0u32 & bit == 0) by (bit_vector);
    } else {
        let rest = bits.drop_last();
        let last = bits.last();
        let union = union_of_bits(rest);
        lemma_union_holds_bit(rest, bit);
        assert(is_single_bit(bits[bits.len() - 1]));
        assert(((union | last) & bit != 0) <==> (union & bit != 0 || last == bit)) by (bit_vector)
            requires
                last != 0 && last & ((last - 1) as u32) == 0,
                bit != 0 && bit & ((bit - 1) as u32) == 0,
        ;
        if union & bit != 0 {
            let i = choose|i: int| 0 <= i < rest.len() && rest[i] == bit;
            assert(bits[i] == bit);
        }
        if exists|i: int| 0 <= i < bits.len() && bits[i] == bit {
            let i = choose|i: int| 0 <= i < bits.len() && bits[i] == bit;
            if i < rest.len() {
                assert(rest[i] == bit);
            }
        }
    }
}

/// Whether `bits` can identify the layers of a map whose mask of all layers
/// is `all`. A table of layer masks is checked once, when it is made, so
/// that two layers with the same bit are found before any tile is stored.
pub fn check_layer_bits(bits: &Vec<u32>, all: u32) -> (valid: bool)
    ensures
        valid == valid_layer_bits(bits@, all),
{
    let mut union: u32 = 0;
    let mut i: usize = 0;
    while i < bits.len()
        invariant
            i <= bits@.len(),
            union == union_of_bits(bits@.take(i as int)),
            forall|k: int| 0 <= k < i ==> is_single_bit(#[trigger] bits@[k]),
            forall|k: int, l: int| 0 <= k < l < i ==> bits@[k] != bits@[l],
        decreases bits@.len() - i,
    {
        let bit = bits[i];
        if !has_single_bit(bit) {
            return false;
        }
        proof {
            let seen = bits@.take(i as int);
            assert forall|k: int| 0 <= k < seen.len() implies is_single_bit(#[trigger] seen[k]) by {
                assert(seen[k] == bits@[k]);
            }
            lemma_union_holds_bit(seen, bit);
            if union & bit != 0 {
                let k = choose|k: int| 0 <= k < seen.len() && seen[k] == bit;
                assert(bits@[k] == bits@[i as int]);
            } else {
                assert forall|k: int| 0 <= k < i implies bits@[k] != bit by {
                    if bits@[k] == bit {
                        assert(seen[k] == bit);
                    }
                }
            }
            assert(bits@.take(i + 1).drop_last() =~= seen);
        }
        if union & bit != 0 {
            return false;
        }
        union = union | bit;
        i += 1;
    }
    proof {
        assert(bits@.take(i as int) =~= bits@);
    }
    union == all
}

/// The single bit of one layer is set, and the bits of two different layers
/// share nothing.
pub proof fn lemma_layer_bits_disjoint(first: u32, second: u32)
    requires
        first < MAX_LAYERS,
        second < MAX_LAYERS,
    ensures
        is_single_bit(spec_layer_bit(first)),
        first != second ==> spec_layer_bit(first) & spec_layer_bit(second) == 0,
        first != second ==> spec_layer_bit(first) != spec_layer_bit(second),
{
    assert((1u32 << first) != 0 && (1u32 << first) & (((1u32 << first) - 1) as u32) == 0)
        by (bit_vector)
        requires
            first < 32,
    ;
    assert(first != second ==> (1u32 << first) & (1u32 << second) == 0 && (1u32 << first) != (1u32
        << second)) by (bit_vector)
        requires
            first < 32,
            second < 32,
    ;
}

/// The union of the masks of the first `count` layers is the mask of all
/// `count` layers.
proof fn lemma_union_of_layer_table(count: u32)
    requires
        count <= MAX_LAYERS,
    ensures
        union_of_bits(layer_table(count)) == spec_all_layer_bits(count),
    decreases count,
{
    if count == 0 {
        assert(((1u32 << 0u32) - 1) as u32 == 0) by (bit_vector);
    } else {
        let fewer = (count - 1) as u32;
        lemma_union_of_layer_table(fewer);
        assert(layer_table(count).drop_last() =~= layer_table(fewer));
        assert(layer_table(count).last() == spec_layer_bit(fewer));
        if count == 32 {
            assert((((1u32 << 31u32) - 1) as u32) | (1u32 << 31u32) == 0xffff_ffffu32)
                by (bit_vector);
        } else {
            assert((((1u32 << fewer) - 1) as u32) | (1u32 << fewer) == ((1u32 << count) - 1) as u32)
                by (bit_vector)
                requires
                    count < 32,
                    fewer == count - 1,
            ;
        }
    }
}

/// The union of masks holds each of them.
proof fn lemma_union_holds_each(bits: Seq<u32>, index: int)
    requires
        0 <= index < bits.len(),
    ensures
        mask_holds(union_of_bits(bits), bits[index]),
    decreases bits.len(),
{
    let rest = bits.drop_last();
    let last = bits.last();
    let union = union_of_bits(rest);
    let bit = bits[index];
    if index == bits.len() - 1 {
        assert((union | last) & last == last) by (bit_vector);
    } else {
        lemma_union_holds_each(rest, index);
        assert(rest[index] == bit);
        assert((union | last) & bit == bit) by (bit_vector)
            requires
                union & bit == bit,
        ;
    }
}

/// The mask of all layers of a valid table holds the mask of each layer.
pub proof fn lemma_all_bits_hold_each_layer(bits: Seq<u32>, all: u32, index: int)
    requires
        valid_layer_bits(bits, all),
        0 <= index < bits.len(),
    ensures
        mask_holds(all, bits[index]),
{
    lemma_union_holds_each(bits, index);
}

/// For a map of `count` layers, at most 32, the masks of its layers are
/// `count` different masks, each with exactly one bit set, and their bitwise
/// OR is the mask of all layers.
pub proof fn lemma_layer_bits_unique(count: u32)
    requires
        count <= MAX_LAYERS,
    ensures
        layer_table(count).len() == count,
        valid_layer_bits(layer_table(count), spec_all_layer_bits(count)),
{
    let table = layer_table(count);
    assert forall|i: int| 0 <= i < table.len() implies is_single_bit(#[trigger] table[i]) by {
        lemma_layer_bits_disjoint(i as u32, i as u32);
    }
    assert forall|i: int, j: int| 0 <= i < j < table.len() implies table[i] != table[j] by {
        lemma_layer_bits_disjoint(i as u32, j as u32);
    }
    lemma_union_of_layer_table(count);
}

} // verus!
