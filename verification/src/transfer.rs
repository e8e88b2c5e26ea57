//! Batched movement of fixed-size items between a region and a caller's buffer.
//!
//! A region is a sequence of machine words that holds `count` items of
//! `item_words` words each, item `i` at words `i * item_words ..
//! (i + 1) * item_words`. A transfer names items by an index list and moves them
//! in the order of that list: position `p` of the list corresponds to words
//! `p * item_words .. (p + 1) * item_words` of the buffer.

use vstd::prelude::*;

verus! {

/// Every index of the list names an item of a region that holds `count` items.
pub open spec fn indices_in_bounds(indices: Seq<u64>, count: nat) -> bool {
    forall|p: int| 0 <= p < indices.len() ==> (#[trigger] indices[p]) < count
}

/// No item is named twice by the list.
pub open spec fn indices_distinct(indices: Seq<u64>) -> bool {
    forall|p: int, q: int|
        0 <= p < q < indices.len() ==> (#[trigger] indices[p]) != (#[trigger] indices[q])
}

/// Every item that the list names lies within a region of `region_len` words.
pub open spec fn items_within(indices: Seq<u64>, item_words: nat, region_len: nat) -> bool {
    forall|p: int|
        0 <= p < indices.len() ==> ((#[trigger] indices[p]) + 1) * item_words <= region_len
}

/// The buffer that reading the items named by `indices` out of `region` fills:
/// word `k` of it is word `k % item_words` of the item named at position
/// `k / item_words`.
pub open spec fn gathered(region: Seq<u64>, indices: Seq<u64>, item_words: nat) -> Seq<u64> {
    Seq::new(
        indices.len() * item_words,
        |k: int|
            region[indices[k / (item_words as int)] * item_words + k % (item_words as int)],
    )
}

/// The last position of the list that names `item`, or `-1` where none does.
pub open spec fn last_position(indices: Seq<u64>, item: int) -> int
    decreases indices.len(),
{
    if indices.len() == 0 {
        -1
    } else if indices.last() == item {
        indices.len() - 1
    } else {
        last_position(indices.drop_last(), item)
    }
}

/// The region after the items named by `indices` have been written from
/// `words`, in list order: a word of an item that the list names holds what the
/// last position naming that item supplied; every other word is as before.
/// Items of no words leave the region as it is.
pub open spec fn scattered(
    region: Seq<u64>,
    indices: Seq<u64>,
    item_words: nat,
    words: Seq<u64>,
) -> Seq<u64> {
    if item_words == 0 {
        region
    } else {
        Seq::new(
            region.len(),
            |j: int|
                {
                    let p = last_position(indices, j / (item_words as int));
                    if p >= 0 {
                        words[p * item_words + j % (item_words as int)]
                    } else {
                        region[j]
                    }
                },
        )
    }
}

/// Word `offset` of the item at `slot` sits at `slot * item_words + offset`,
/// and that address belongs to no other item.
proof fn lemma_item_address(slot: int, offset: int, item_words: int)
    by (nonlinear_arith)
    requires
        0 <= slot,
        0 <= offset < item_words,
    ensures
        (slot * item_words + offset) / item_words == slot,
        (slot * item_words + offset) % item_words == offset,
        0 <= slot * item_words <= slot * item_words + offset < (slot + 1) * item_words,
{
}

/// A word address decomposes into its item and its offset within the item.
proof fn lemma_address_item(address: int, item_words: int)
    by (nonlinear_arith)
    requires
        0 <= address,
        0 < item_words,
    ensures
        0 <= address / item_words,
        0 <= address % item_words < item_words,
        address == (address / item_words) * item_words + address % item_words,
{
}

/// The items below `count` fill exactly the first `count * item_words` words.
proof fn lemma_item_within(slot: int, count: int, item_words: int)
    by (nonlinear_arith)
    requires
        0 <= slot < count,
        0 <= item_words,
    ensures
        0 <= slot * item_words,
        slot * item_words + item_words == (slot + 1) * item_words,
        (slot + 1) * item_words <= count * item_words,
{
}

/// An item of at least one word that ends within `region_len` words starts
/// there too, and its number is below `region_len`.
proof fn lemma_item_start(slot: int, item_words: int, region_len: int)
    by (nonlinear_arith)
    requires
        0 <= slot,
        0 < item_words,
        (slot + 1) * item_words <= region_len,
    ensures
        slot < region_len,
        0 <= slot * item_words,
        slot * item_words + item_words <= region_len,
{
}

/// In a region that holds exactly `count` items, the items that an index list
/// in bounds names lie within the region.
pub proof fn lemma_in_bounds_items_within(indices: Seq<u64>, count: nat, item_words: nat)
    requires
        indices_in_bounds(indices, count),
    ensures
        items_within(indices, item_words, count * item_words),
{
    assert forall|p: int| 0 <= p < indices.len() implies ((#[trigger] indices[p]) + 1) * item_words
        <= count * item_words by {
        lemma_item_within(indices[p] as int, count as int, item_words as int);
    }
}

/// An address below `count * item_words` belongs to an item below `count`.
proof fn lemma_address_within(address: int, count: int, item_words: int)
    by (nonlinear_arith)
    requires
        0 <= address < count * item_words,
        0 <= count,
        0 < item_words,
    ensures
        0 <= address / item_words < count,
{
}

/// `last_position` returns a position that names the item, after which no
/// position names it; or `-1`, and then no position names it.
pub proof fn lemma_last_position(indices: Seq<u64>, item: int)
    ensures
        -1 <= last_position(indices, item) < indices.len(),
        last_position(indices, item) >= 0 ==> indices[last_position(indices, item)] == item,
        forall|q: int|
            last_position(indices, item) < q < indices.len() ==> (#[trigger] indices[q]) != item,
    decreases indices.len(),
{
    if indices.len() > 0 && indices.last() != item {
        let front = indices.drop_last();
        lemma_last_position(front, item);
        assert forall|q: int| last_position(indices, item) < q < indices.len() implies (
        #[trigger] indices[q]) != item by {
            if q < front.len() {
                assert(front[q] == indices[q]);
            }
        }
    }
}

/// Where the list names no item twice, the last position naming the item of
/// position `p` is `p` itself.
proof fn lemma_last_position_distinct(indices: Seq<u64>, p: int)
    requires
        indices_distinct(indices),
        0 <= p < indices.len(),
    ensures
        last_position(indices, indices[p] as int) == p,
{
    lemma_last_position(indices, indices[p] as int);
}

/// Writing a batch changes no word of an item that the list does not name.
pub proof fn lemma_scattered_untouched(
    region: Seq<u64>,
    indices: Seq<u64>,
    item_words: nat,
    words: Seq<u64>,
    address: int,
)
    requires
        0 <= address < region.len(),
        forall|p: int|
            0 <= p < indices.len() ==> (#[trigger] indices[p]) != address / (item_words as int),
    ensures
        scattered(region, indices, item_words, words)[address] == region[address],
{
    lemma_last_position(indices, address / (item_words as int));
}

/// Reading back the items that were just written, by the same list, returns
/// the words that were written, provided the list names no item twice.
pub proof fn lemma_scatter_then_gather(
    region: Seq<u64>,
    indices: Seq<u64>,
    item_words: nat,
    words: Seq<u64>,
)
    requires
        items_within(indices, item_words, region.len()),
        indices_distinct(indices),
        words.len() == indices.len() * item_words,
    ensures
        gathered(scattered(region, indices, item_words, words), indices, item_words) == words,
{
    let after = scattered(region, indices, item_words, words);
    let back = gathered(after, indices, item_words);
    let w = item_words as int;
    assert forall|k: int| 0 <= k < back.len() implies back[k] == words[k] by {
        assert(w > 0) by (nonlinear_arith)
            requires
                0 <= k < indices.len() * w,
                0 <= w,
        ;
        lemma_address_item(k, w);
        lemma_address_within(k, indices.len() as int, w);
        let p = k / w;
        let offset = k % w;
        let slot = indices[p] as int;
        lemma_item_address(slot, offset, w);
        lemma_last_position_distinct(indices, p);
    }
}

/// Extending the list by one position writes that position's item over the
/// result for the shorter list.
proof fn lemma_scattered_step(
    region: Seq<u64>,
    indices: Seq<u64>,
    item_words: nat,
    words: Seq<u64>,
    p: int,
    address: int,
)
    requires
        0 <= p < indices.len(),
        0 <= address < region.len(),
        0 < item_words,
    ensures
        scattered(region, indices.take(p + 1), item_words, words)[address] == if indices[p]
            * item_words <= address < indices[p] * item_words + item_words {
            words[p * item_words + (address - indices[p] * item_words)]
        } else {
            scattered(region, indices.take(p), item_words, words)[address]
        },
{
    let w = item_words as int;
    let longer = indices.take(p + 1);
    let slot = indices[p] as int;
    assert(longer.drop_last() =~= indices.take(p));
    lemma_address_item(address, w);
    if slot * w <= address < slot * w + w {
        lemma_item_address(slot, address - slot * w, w);
    } else if address / w == slot {
        lemma_item_address(slot, address % w, w);
    }
}

/// Whether every index of the list names an item of a region of `count` items.
pub fn all_in_bounds(indices: &[u64], count: usize) -> (ok: bool)
    ensures
        ok == indices_in_bounds(indices@, count as nat),
{
    let mut p: usize = 0;
    while p < indices.len()
        invariant
            p <= indices.len(),
            forall|q: int| 0 <= q < p ==> (#[trigger] indices@[q]) < count,
        decreases indices.len() - p,
    {
        if indices[p] >= count as u64 {
            return false;
        }
        p += 1;
    }
    true
}

/// Reads the items named by `indices` out of `region` into `out`, in list
/// order.
pub fn copy_out(region: &[u64], item_words: usize, indices: &[u64], out: &mut [u64])
    requires
        items_within(indices@, item_words as nat, region@.len()),
        old(out)@.len() == indices@.len() * item_words,
    ensures
        final(out)@ == gathered(region@, indices@, item_words as nat),
{
    let ghost want = gathered(region@, indices@, item_words as nat);
    if item_words == 0 {
        return ;
    }
    let out_len = out.len();
    let region_len = region.len();
    let mut p: usize = 0;
    while p < indices.len()
        invariant
            p <= indices.len(),
            0 < item_words,
            region@.len() == region_len,
            out@.len() == out_len,
            items_within(indices@, item_words as nat, region@.len()),
            out@.len() == indices@.len() * item_words,
            want == gathered(region@, indices@, item_words as nat),
            forall|k: int| 0 <= k < p * item_words ==> out@[k] == want[k],
        decreases indices.len() - p,
    {
        proof {
            lemma_item_start(indices@[p as int] as int, item_words as int, region_len as int);
            lemma_item_within(p as int, indices@.len() as int, item_words as int);
        }
        let slot = indices[p] as usize;
        let from = slot * item_words;
        let to = p * item_words;
        let mut offset: usize = 0;
        while offset < item_words
            invariant
                offset <= item_words,
                p < indices.len(),
                slot == indices@[p as int],
                from == slot * item_words,
                to == p * item_words,
                from + item_words <= region@.len(),
                to + item_words <= out@.len(),
                region@.len() == region_len,
                out@.len() == out_len,
                out@.len() == indices@.len() * item_words,
                want == gathered(region@, indices@, item_words as nat),
                forall|k: int| 0 <= k < to + offset ==> out@[k] == want[k],
            decreases item_words - offset,
        {
            proof {
                lemma_item_address(p as int, offset as int, item_words as int);
            }
            out[to + offset] = region[from + offset];
            offset += 1;
        }
        proof {
            assert((p + 1) * item_words == to + item_words) by (nonlinear_arith)
                requires
                    to == p * item_words,
            ;
        }
        p += 1;
    }
}

/// Writes the items named by `indices` into `region` from `words`, in list
/// order.
pub fn copy_in(region: &mut [u64], item_words: usize, indices: &[u64], words: &[u64])
    requires
        items_within(indices@, item_words as nat, old(region)@.len()),
        words@.len() == indices@.len() * item_words,
    ensures
        final(region)@ == scattered(old(region)@, indices@, item_words as nat, words@),
{
    let ghost before = region@;
    if item_words == 0 {
        return ;
    }
    let region_len = region.len();
    let words_len = words.len();
    let mut p: usize = 0;
    while p < indices.len()
        invariant
            p <= indices.len(),
            0 < item_words,
            before.len() == region_len,
            words@.len() == words_len,
            items_within(indices@, item_words as nat, before.len()),
            words@.len() == indices@.len() * item_words,
            region@ == scattered(before, indices@.take(p as int), item_words as nat, words@),
        decreases indices.len() - p,
    {
        proof {
            lemma_item_start(indices@[p as int] as int, item_words as int, region_len as int);
            lemma_item_within(p as int, indices@.len() as int, item_words as int);
        }
        let slot = indices[p] as usize;
        let to = slot * item_words;
        let from = p * item_words;
        let ghost shorter = region@;
        let mut offset: usize = 0;
        while offset < item_words
            invariant
                offset <= item_words,
                to == slot * item_words,
                from == p * item_words,
                to + item_words <= region@.len(),
                from + item_words <= words@.len(),
                region@.len() == region_len,
                words@.len() == words_len,
                region@.len() == shorter.len(),
                forall|j: int|
                    0 <= j < region@.len() ==> region@[j] == if to <= j < to + offset {
                        words@[from + (j - to)]
                    } else {
                        shorter[j]
                    },
            decreases item_words - offset,
        {
            region[to + offset] = words[from + offset];
            offset += 1;
        }
        proof {
            let longer = scattered(before, indices@.take(p + 1), item_words as nat, words@);
            assert forall|j: int| 0 <= j < region@.len() implies region@[j] == longer[j] by {
                lemma_scattered_step(before, indices@, item_words as nat, words@, p as int, j);
            }
        }
        p += 1;
    }
    assert(indices@.take(indices@.len() as int) =~= indices@);
}

} // verus!
