//! A simulated heap: a unit-indexed address space, a free-list of the
//! ranges that may be handed out, and one record per unit saying which
//! block it belongs to and in what state that block is.
use crate::error::Error;
use crate::ordered::{
    address_insert, address_items, address_seen, hint_entries, hint_get, hint_insert, lookup,
    new_address_set, unique_keys, upsert,
};
use crate::text::text_eq;
use indexmap::IndexSet;
use indexmap::IndexMap;
use rand::Rng;
use vstd::prelude::*;
use vstd::string::StringExecFns;

verus! {

/// The state of a unit of heap memory.
#[derive(Debug, Clone, Copy, PartialEq, Eq, Structural)]
pub enum HeapBlockState {
    Unallocated,
    Allocated,
    Free,
    Leaked,
}

/// One unit of heap memory, with the record of the block it belongs to.
#[derive(Debug, Clone)]
pub struct HeapBlock {
    pub block_state: HeapBlockState,
    pub current_pointer_identifier: Option<String>,
    pub dangling_pointer_identifiers: Option<Vec<String>>,
    pub size: usize,
    pub metadata: String,
    pub pointer: usize,
}

/// A heap unit seen as plain values.
pub struct HeapBlockView {
    pub state: HeapBlockState,
    pub owner: Option<Seq<char>>,
    pub dangling: Option<Seq<Seq<char>>>,
    pub size: usize,
    pub metadata: Seq<char>,
    pub pointer: usize,
}

pub open spec fn names_view(v: Vec<String>) -> Seq<Seq<char>> {
    v@.map_values(|s: String| s@)
}

impl View for HeapBlock {
    type V = HeapBlockView;

    open spec fn view(&self) -> HeapBlockView {
        HeapBlockView {
            state: self.block_state,
            owner: match self.current_pointer_identifier {
                Some(s) => Some(s@),
                None => None,
            },
            dangling: dangling_view(self.dangling_pointer_identifiers),
            size: self.size,
            metadata: self.metadata@,
            pointer: self.pointer,
        }
    }
}

pub open spec fn unallocated_text() -> Seq<char> {
    "Unallocated Block"@
}

pub open spec fn free_text() -> Seq<char> {
    "Free Block"@
}

pub open spec fn leaked_text() -> Seq<char> {
    "Leaked Block"@
}

/// A unit that no block has ever covered.
pub open spec fn blank_unit() -> HeapBlockView {
    HeapBlockView {
        state: HeapBlockState::Unallocated,
        owner: None,
        dangling: None,
        size: 0,
        metadata: unallocated_text(),
        pointer: usize::MAX,
    }
}

/// Free-list ranges `(start, end)`, both ends included: each within
/// `[0, size)`, and each ending before the next one starts, so that they are
/// sorted and pairwise disjoint.
pub open spec fn ranges_ok(fl: Seq<(usize, usize)>, size: nat) -> bool {
    &&& forall|k: int| 0 <= k < fl.len() ==> (#[trigger] fl[k]).0 <= fl[k].1 && fl[k].1 < size
    &&& forall|k: int, l: int| 0 <= k < l < fl.len() ==> #[trigger] fl[k].1 < #[trigger] fl[l].0
}

/// Whether unit `u` lies in one of the ranges.
pub open spec fn in_ranges(fl: Seq<(usize, usize)>, u: int) -> bool {
    exists|k: int| 0 <= k < fl.len() && #[trigger] fl[k].0 <= u && u <= fl[k].1
}

/// Whether some range is at least `n` units wide.
pub open spec fn fits_somewhere(fl: Seq<(usize, usize)>, n: nat) -> bool {
    exists|k: int| 0 <= k < fl.len() && #[trigger] fl[k].1 - fl[k].0 + 1 >= n
}

/// Whether `[a, a + n)` lies within one range.
pub open spec fn fits_at(fl: Seq<(usize, usize)>, a: int, n: nat) -> bool {
    exists|k: int| 0 <= k < fl.len() && #[trigger] fl[k].0 <= a && a + n - 1 <= fl[k].1
}

pub open spec fn is_vacant(s: HeapBlockState) -> bool {
    s == HeapBlockState::Unallocated || s == HeapBlockState::Free
}

/// The size the heap grows to when `required` more units are needed: the
/// larger of `size * factor` and `size + required`, capped at the limit if
/// there is one, and at the largest address otherwise.
pub open spec fn grown_size(size: nat, factor: nat, required: nat, limit: Option<usize>) -> nat {
    let t = if size * factor >= size + required {
        size * factor
    } else {
        size + required
    };
    let bound = match limit {
        Some(m) => m as nat,
        None => usize::MAX as nat,
    };
    if t <= bound {
        t
    } else {
        bound
    }
}

/// The error that growing by `required` units gives, where it fails.
pub open spec fn resize_error(grows: bool) -> Seq<char> {
    if !grows {
        "Infinite memory is disabled"@
    } else {
        "Cannot resize heap: new size is not larger than current size"@
    }
}

/// The error that allocating `n` units gives when no free range is wide
/// enough: growth is off, or cannot enlarge the heap, or cannot enlarge it
/// by enough within the limit.
pub open spec fn allocate_error(grows: bool, size: nat, grown: nat, n: nat) -> Seq<char> {
    if !grows {
        "Insufficient memory"@
    } else if grown <= size {
        "Failed to resize heap: "@ + resize_error(grows)
    } else {
        "Failed to resize heap: "@ + "Cannot resize heap: would exceed maximum size limit"@
    }
}

/// The simulated heap allocator. Allocation picks a random start inside a
/// fitting free range, so that repeated runs scatter blocks as a real
/// allocator would. When `infinite_memory` is set, the address space grows
/// when no range fits.
pub struct HeapAllocator {
    heap: Vec<HeapBlock>,
    size: usize,
    free_list: Vec<(usize, usize)>,
    infinite_memory: bool,
    growth_factor: usize,
    max_size: Option<usize>,
}

/// Relies on `rand::rng` and `Rng::random_range`: a value drawn from
/// `lo..=hi`, which must not be empty.
#[verifier::external_body]
fn random_between(lo: usize, hi: usize) -> (r: usize)
    requires
        lo <= hi,
    ensures
        lo <= r <= hi,
{
    rand::rng().random_range(lo..=hi)
}

/// How many random starts are tried in a range before one is drawn among
/// the starts that fit.
const RANDOM_TRIES: usize = 8;

fn blank_block() -> (r: HeapBlock)
    ensures
        r@ == blank_unit(),
{
    HeapBlock {
        block_state: HeapBlockState::Unallocated,
        current_pointer_identifier: None,
        dangling_pointer_identifiers: None,
        size: 0,
        metadata: String::from_str("Unallocated Block"),
        pointer: usize::MAX,
    }
}

/// A copy of the names.
pub fn copy_names(v: &Vec<String>) -> (r: Vec<String>)
    ensures
        r@ == v@,
{
    let mut r: Vec<String> = Vec::new();
    let mut i: usize = 0;
    while i < v.len()
        invariant
            i <= v.len(),
            r@ == v@.subrange(0, i as int),
        decreases v.len() - i,
    {
        r.push(v[i].clone());
        i = i + 1;
    }
    assert(r@ =~= v@);
    r
}

pub open spec fn dangling_view(d: Option<Vec<String>>) -> Option<Seq<Seq<char>>> {
    match d {
        Some(v) => Some(names_view(v)),
        None => None,
    }
}

pub fn copy_dangling(d: &Option<Vec<String>>) -> (r: Option<Vec<String>>)
    ensures
        dangling_view(r) == dangling_view(*d),
{
    match d {
        Some(v) => Some(copy_names(v)),
        None => None,
    }
}

impl HeapBlock {
    /// A copy of the record.
    pub fn duplicate(&self) -> (r: HeapBlock)
        ensures
            r@ == self@,
    {
        HeapBlock {
            block_state: self.block_state,
            current_pointer_identifier: match &self.current_pointer_identifier {
                Some(s) => Some(s.clone()),
                None => None,
            },
            dangling_pointer_identifiers: copy_dangling(&self.dangling_pointer_identifiers),
            size: self.size,
            metadata: self.metadata.clone(),
            pointer: self.pointer,
        }
    }
}

/// Whether a hint is remembered for `name` and a block of `n` units still
/// fits there.
pub open spec fn hint_usable(
    hints: Seq<(Seq<char>, usize)>,
    name: Seq<char>,
    fl: Seq<(usize, usize)>,
    n: nat,
) -> bool {
    lookup(hints, name) is Some && fits_at(fl, lookup(hints, name)->0 as int, n)
}

impl HeapAllocator {
    /// The units of the address space, in address order.
    pub closed spec fn units(&self) -> Seq<HeapBlockView> {
        self.heap@.map_values(|b: HeapBlock| b@)
    }

    /// The free-list.
    pub closed spec fn free_ranges(&self) -> Seq<(usize, usize)> {
        self.free_list@
    }

    /// The current size of the address space.
    pub closed spec fn capacity(&self) -> nat {
        self.size as nat
    }

    pub closed spec fn grows(&self) -> bool {
        self.infinite_memory
    }

    pub closed spec fn growth(&self) -> nat {
        self.growth_factor as nat
    }

    pub closed spec fn limit(&self) -> Option<usize> {
        self.max_size
    }

    pub open spec fn is_free(&self, u: int) -> bool {
        in_ranges(self.free_ranges(), u)
    }

    /// The allocator's invariant: one unit record per address, a sorted and
    /// disjoint free-list inside the address space, and no unit in the
    /// free-list that belongs to an allocated or leaked block.
    pub open spec fn wf(&self) -> bool {
        &&& self.units().len() == self.capacity()
        &&& self.capacity() > 0
        &&& ranges_ok(self.free_ranges(), self.capacity())
        &&& forall|u: int|
            0 <= u < self.capacity() && #[trigger] self.is_free(u) ==> is_vacant(
                self.units()[u].state,
            )
    }

    /// The invariant, and moreover the free-list and the allocated and leaked
    /// blocks together cover the address space: a unit is in the free-list
    /// exactly when it is unallocated or free.
    pub open spec fn partitioned(&self) -> bool {
        &&& self.wf()
        &&& forall|u: int|
            0 <= u < self.capacity() ==> (#[trigger] self.is_free(u) <==> is_vacant(
                self.units()[u].state,
            ))
    }

    /// Whether `[a, a + n)` is a non-empty range of the address space that
    /// holds no free unit.
    pub open spec fn reserved(&self, a: int, n: int) -> bool {
        &&& n > 0
        &&& 0 <= a
        &&& a + n <= self.capacity()
        &&& forall|u: int| a <= u < a + n ==> !#[trigger] self.is_free(u)
    }

    /// The settings that no operation changes.
    pub open spec fn same_settings(&self, other: &HeapAllocator) -> bool {
        &&& self.grows() == other.grows()
        &&& self.growth() == other.growth()
        &&& self.limit() == other.limit()
    }

    /// `self` is `old` with possibly more units at the end, each blank.
    pub open spec fn extends(&self, old: &HeapAllocator) -> bool {
        &&& self.same_settings(old)
        &&& self.capacity() >= old.capacity()
        &&& self.units().subrange(0, old.capacity() as int) == old.units()
        &&& forall|u: int|
            old.capacity() <= u < self.capacity() ==> #[trigger] self.units()[u] == blank_unit()
    }

    proof fn lemma_units(&self)
        ensures
            self.units().len() == self.heap@.len(),
            forall|u: int| 0 <= u < self.heap@.len() ==> #[trigger] self.units()[u] == self.heap@[u]@,
    {
    }

    pub fn new(size: usize) -> (r: Self)
        requires
            size > 0,
        ensures
            r.partitioned(),
            r.capacity() == size,
            r.free_ranges() == seq![(0usize, (size - 1) as usize)],
            forall|u: int| 0 <= u < size ==> #[trigger] r.units()[u] == blank_unit(),
            !r.grows(),
            r.growth() == 2,
            r.limit() is None,
    {
        Self::new_with_options(size, false, 2, None)
    }

    pub fn new_infinite(initial_size: usize, growth_factor: usize, max_size: Option<usize>) -> (r:
        Self)
        requires
            initial_size > 0,
        ensures
            r.partitioned(),
            r.capacity() == initial_size,
            r.free_ranges() == seq![(0usize, (initial_size - 1) as usize)],
            forall|u: int| 0 <= u < initial_size ==> #[trigger] r.units()[u] == blank_unit(),
            r.grows(),
            r.growth() == growth_factor,
            r.limit() == max_size,
    {
        Self::new_with_options(initial_size, true, growth_factor, max_size)
    }

    pub fn new_with_options(
        size: usize,
        infinite_memory: bool,
        growth_factor: usize,
        max_size: Option<usize>,
    ) -> (r: Self)
        requires
            size > 0,
        ensures
            r.partitioned(),
            r.capacity() == size,
            r.free_ranges() == seq![(0usize, (size - 1) as usize)],
            forall|u: int| 0 <= u < size ==> #[trigger] r.units()[u] == blank_unit(),
            r.grows() == infinite_memory,
            r.growth() == growth_factor,
            r.limit() == max_size,
    {
        let mut heap: Vec<HeapBlock> = Vec::new();
        let mut i: usize = 0;
        while i < size
            invariant
                i <= size,
                heap@.len() == i,
                forall|u: int| 0 <= u < i ==> #[trigger] heap@[u]@ == blank_unit(),
            decreases size - i,
        {
            heap.push(blank_block());
            i = i + 1;
        }
        let mut free_list: Vec<(usize, usize)> = Vec::new();
        free_list.push((0, size - 1));
        let r = HeapAllocator { heap, size, free_list, infinite_memory, growth_factor, max_size };
        proof {
            r.lemma_units();
            assert forall|u: int| 0 <= u < r.capacity() implies (#[trigger] r.is_free(u)
                <==> is_vacant(r.units()[u].state)) by {
                assert(r.free_ranges()[0].0 <= u && u <= r.free_ranges()[0].1);
            }
        }
        r
    }
}


/// Replacing range `i` of `fl` by the pieces of it before and after
/// `[a, a + n)` frees exactly the units that were free outside that range.
proof fn lemma_split_ranges(
    fl: Seq<(usize, usize)>,
    nfl: Seq<(usize, usize)>,
    i: int,
    a: int,
    n: int,
    size: nat,
)
    requires
        ranges_ok(fl, size),
        0 <= i < fl.len(),
        n > 0,
        fl[i].0 <= a,
        a + n - 1 <= fl[i].1,
        nfl == fl.subrange(0, i) + (if a > fl[i].0 {
            seq![(fl[i].0, (a - 1) as usize)]
        } else {
            seq![]
        }) + (if a + n - 1 < fl[i].1 {
            seq![((a + n) as usize, fl[i].1)]
        } else {
            seq![]
        }) + fl.subrange(i + 1, fl.len() as int),
    ensures
        ranges_ok(nfl, size),
        forall|u: int| in_ranges(nfl, u) <==> (in_ranges(fl, u) && !(a <= u < a + n)),
{
    let left: Seq<(usize, usize)> = if a > fl[i].0 {
        seq![(fl[i].0, (a - 1) as usize)]
    } else {
        seq![]
    };
    let right: Seq<(usize, usize)> = if a + n - 1 < fl[i].1 {
        seq![((a + n) as usize, fl[i].1)]
    } else {
        seq![]
    };
    let m = left.len() + right.len();
    let mid = left + right;
    assert(forall|k: int| 0 <= k < i ==> nfl[k] == fl[k]);
    assert(forall|k: int| i + m <= k < nfl.len() ==> nfl[k] == fl[k - m + 1]);
    assert(forall|k: int| i <= k < i + m ==> nfl[k] == mid[k - i]);
    assert(nfl.len() == fl.len() - 1 + m);
    assert forall|k: int, l: int| 0 <= k < l < nfl.len() implies #[trigger] nfl[k].1
        < #[trigger] nfl[l].0 by {
        if k < i {
            if l < i {
            } else if l < i + m {
                assert(fl[k].1 < fl[i].0);
            } else {
                assert(fl[k].1 < fl[l - m + 1].0);
            }
        } else if k < i + m {
            if l < i + m {
            } else {
                assert(fl[i].1 < fl[l - m + 1].0);
            }
        } else {
            assert(fl[k - m + 1].1 < fl[l - m + 1].0);
        }
    }
    assert forall|k: int| 0 <= k < nfl.len() implies #[trigger] nfl[k].0 <= nfl[k].1 && nfl[k].1
        < size by {
        if k < i {
        } else if k < i + m {
        } else {
            assert(nfl[k] == fl[k - m + 1]);
        }
    }
    assert forall|u: int| in_ranges(nfl, u) implies (in_ranges(fl, u) && !(a <= u < a + n)) by {
        let k = choose|k: int| 0 <= k < nfl.len() && #[trigger] nfl[k].0 <= u && u <= nfl[k].1;
        if k < i {
            assert(fl[k].0 <= u && u <= fl[k].1);
            assert(fl[k].1 < fl[i].0);
        } else if k < i + m {
            assert(fl[i].0 <= u && u <= fl[i].1);
        } else {
            let j = k - m + 1;
            assert(fl[j].0 <= u && u <= fl[j].1);
            assert(fl[i].1 < fl[j].0);
        }
    }
    assert forall|u: int| (in_ranges(fl, u) && !(a <= u < a + n)) implies in_ranges(nfl, u) by {
        let k = choose|k: int| 0 <= k < fl.len() && #[trigger] fl[k].0 <= u && u <= fl[k].1;
        if k < i {
            assert(nfl[k].0 <= u && u <= nfl[k].1);
        } else if k == i {
            if u < a {
                assert(nfl[i].0 <= u && u <= nfl[i].1);
            } else {
                assert(nfl[i + left.len()].0 <= u && u <= nfl[i + left.len()].1);
            }
        } else {
            assert(nfl[k + m - 1].0 <= u && u <= nfl[k + m - 1].1);
        }
    }
}

/// `v` without the first occurrence of `x`, if there is one.
pub open spec fn remove_first(v: Seq<Seq<char>>, x: Seq<char>) -> Seq<Seq<char>>
    decreases v.len(),
{
    if v.len() == 0 {
        v
    } else if v[0] == x {
        v.drop_first()
    } else {
        seq![v[0]] + remove_first(v.drop_first(), x)
    }
}

proof fn lemma_remove_first(v: Seq<Seq<char>>, x: Seq<char>, i: int)
    requires
        0 <= i <= v.len(),
        forall|j: int| 0 <= j < i ==> v[j] != x,
        i < v.len() ==> v[i] == x,
    ensures
        remove_first(v, x) == if i < v.len() {
            v.remove(i)
        } else {
            v
        },
    decreases v.len(),
{
    if v.len() > 0 && i > 0 {
        lemma_remove_first(v.drop_first(), x, i - 1);
        if i < v.len() {
            assert(seq![v[0]] + v.drop_first().remove(i - 1) =~= v.remove(i));
        } else {
            assert(seq![v[0]] + v.drop_first() =~= v);
        }
    }
}

/// Removes the first occurrence of `name` from `names`, if there is one.
fn remove_name(names: &mut Vec<String>, name: &String)
    ensures
        names_view(*final(names)) == remove_first(names_view(*old(names)), name@),
{
    let mut i: usize = 0;
    while i < names.len() && !(names[i] == *name)
        invariant
            i <= names.len(),
            forall|j: int| 0 <= j < i ==> names@[j]@ != name@,
        decreases names.len() - i,
    {
        i = i + 1;
    }
    let ghost before = names_view(*names);
    proof {
        lemma_remove_first(before, name@, i as int);
    }
    if i < names.len() {
        names.remove(i);
        assert(names_view(*names) =~= before.remove(i as int));
    }
}

/// `u` with the dangling reference `name` added.
pub open spec fn with_dangling(u: HeapBlockView, name: Seq<char>) -> HeapBlockView {
    HeapBlockView {
        dangling: Some(
            match u.dangling {
                Some(v) => v.push(name),
                None => seq![name],
            },
        ),
        ..u
    }
}

/// `u` without the first dangling reference `name`.
pub open spec fn without_dangling(u: HeapBlockView, name: Seq<char>) -> HeapBlockView {
    HeapBlockView {
        dangling: match u.dangling {
            Some(v) => Some(remove_first(v, name)),
            None => None,
        },
        ..u
    }
}

/// `u` showing the value `text`.
pub open spec fn with_metadata(u: HeapBlockView, text: Seq<char>) -> HeapBlockView {
    HeapBlockView { metadata: text, ..u }
}

/// What an update of the block at `pointer` does to unit `u`: a unit of the
/// block becomes `changed`, any other unit stays as it was.
pub open spec fn updated_unit(
    old_units: Seq<HeapBlockView>,
    pointer: int,
    u: int,
    changed: HeapBlockView,
) -> HeapBlockView {
    if pointer <= u < pointer + old_units[pointer].size {
        changed
    } else {
        old_units[u]
    }
}

/// A unit that shows as part of the unallocated space.
pub open spec fn is_blank(b: HeapBlockView) -> bool {
    b.owner is None && b.metadata == unallocated_text()
}

/// The record that stands for a run of `len` blank units from `start`.
pub open spec fn run_block(start: int, len: int) -> HeapBlockView {
    HeapBlockView {
        state: HeapBlockState::Unallocated,
        owner: None,
        dangling: None,
        size: len as usize,
        metadata: unallocated_text(),
        pointer: start as usize,
    }
}

/// The first `i` units read in address order: the records produced so far,
/// and the start and length of the run of blank units still open.
pub open spec fn coalesce_prefix(units: Seq<HeapBlockView>, i: int) -> (
    Seq<HeapBlockView>,
    Option<(int, int)>,
)
    decreases i,
{
    if i <= 0 {
        (Seq::empty(), None)
    } else {
        let prev = coalesce_prefix(units, i - 1);
        let b = units[i - 1];
        if is_blank(b) {
            (
                prev.0,
                match prev.1 {
                    Some(run) => Some((run.0, run.1 + 1)),
                    None => Some((i - 1, 1)),
                },
            )
        } else {
            (
                match prev.1 {
                    Some(run) => prev.0.push(run_block(run.0, run.1)),
                    None => prev.0,
                }.push(b),
                None,
            )
        }
    }
}

/// The units with each maximal run of blank units replaced by one record.
pub open spec fn coalesced(units: Seq<HeapBlockView>) -> Seq<HeapBlockView> {
    let all = coalesce_prefix(units, units.len() as int);
    match all.1 {
        Some(run) => all.0.push(run_block(run.0, run.1)),
        None => all.0,
    }
}

/// Record `k` is the first non-empty record with its address.
pub open spec fn first_of_block(s: Seq<HeapBlockView>, k: int) -> bool {
    s[k].size != 0 && forall|j: int|
        0 <= j < k ==> !(#[trigger] s[j].size != 0 && s[j].pointer == s[k].pointer)
}

/// The first `i` records without the empty ones and the repeats of an
/// address already shown.
pub open spec fn dedup_prefix(s: Seq<HeapBlockView>, i: int) -> Seq<HeapBlockView>
    decreases i,
{
    if i <= 0 {
        Seq::empty()
    } else if first_of_block(s, i - 1) {
        dedup_prefix(s, i - 1).push(s[i - 1])
    } else {
        dedup_prefix(s, i - 1)
    }
}

/// What the heap shows: one record per block, in address order, with the
/// unallocated space in runs.
pub open spec fn snapshot(units: Seq<HeapBlockView>) -> Seq<HeapBlockView> {
    let c = coalesced(units);
    dedup_prefix(c, c.len() as int)
}

pub open spec fn blocks_view(v: Seq<HeapBlock>) -> Seq<HeapBlockView> {
    v.map_values(|b: HeapBlock| b@)
}

fn run_record(start: usize, len: usize) -> (r: HeapBlock)
    ensures
        r@ == run_block(start as int, len as int),
{
    HeapBlock {
        block_state: HeapBlockState::Unallocated,
        current_pointer_identifier: None,
        dangling_pointer_identifiers: None,
        size: len,
        metadata: String::from_str("Unallocated Block"),
        pointer: start,
    }
}

/// Keeps the first non-empty record of each address, in order.
fn dedup_blocks(blocks: &Vec<HeapBlock>) -> (r: Vec<HeapBlock>)
    ensures
        blocks_view(r@) == dedup_prefix(blocks_view(blocks@), blocks@.len() as int),
{
    let ghost s = blocks_view(blocks@);
    let mut seen: IndexSet<usize> = new_address_set();
    let mut out: Vec<HeapBlock> = Vec::new();
    let mut i: usize = 0;
    while i < blocks.len()
        invariant
            i <= blocks.len(),
            s == blocks_view(blocks@),
            blocks_view(out@) == dedup_prefix(s, i as int),
            forall|p: usize|
                #[trigger] address_items(seen).contains(p) <==> exists|j: int|
                    0 <= j < i && s[j].size != 0 && s[j].pointer == p,
        decreases blocks.len() - i,
    {
        let b = &blocks[i];
        let ghost t = s[i as int];
        if b.size != 0 && !address_seen(&seen, b.pointer) {
            proof {
                assert(first_of_block(s, i as int)) by {
                    assert forall|j: int| 0 <= j < i implies !(#[trigger] s[j].size != 0 && s[j].pointer
                        == s[i as int].pointer) by {
                        if s[j].size != 0 && s[j].pointer == s[i as int].pointer {
                            assert(address_items(seen).contains(b.pointer));
                        }
                    }
                }
            }
            address_insert(&mut seen, b.pointer);
            out.push(b.duplicate());
            proof {
                assert(blocks_view(out@) =~= dedup_prefix(s, i as int).push(t));
            }
        } else {
            proof {
                if b.size != 0 {
                    let j = choose|j: int| 0 <= j < i && s[j].size != 0 && s[j].pointer == b.pointer;
                    assert(!first_of_block(s, i as int));
                }
            }
        }
        proof {
            assert forall|p: usize| #[trigger] address_items(seen).contains(p) <==> exists|j: int|
                0 <= j < i + 1 && s[j].size != 0 && s[j].pointer == p by {
                if p == b.pointer && b.size != 0 {
                    assert(s[i as int].size != 0 && s[i as int].pointer == p);
                }
                if exists|j: int| 0 <= j < i + 1 && s[j].size != 0 && s[j].pointer == p {
                    let j = choose|j: int| 0 <= j < i + 1 && s[j].size != 0 && s[j].pointer == p;
                    if j < i {
                        assert(exists|j: int| 0 <= j < i && s[j].size != 0 && s[j].pointer == p);
                    }
                }
            }
        }
        i = i + 1;
    }
    out
}

impl HeapAllocator {
    /// Takes `[a, a + n)` out of free range `i`, keeping what lies before and
    /// after it as free ranges in its place.
    fn split(&mut self, i: usize, a: usize, n: usize)
        requires
            old(self).wf(),
            i < old(self).free_ranges().len(),
            n > 0,
            old(self).free_ranges()[i as int].0 <= a,
            a + n - 1 <= old(self).free_ranges()[i as int].1,
        ensures
            final(self).wf(),
            final(self).units() == old(self).units(),
            final(self).capacity() == old(self).capacity(),
            final(self).same_settings(old(self)),
            forall|u: int|
                #[trigger] final(self).is_free(u) <==> (old(self).is_free(u) && !(a <= u < a + n)),
    {
        let ghost fl = self.free_list@;
        let (s, e) = self.free_list[i];
        self.free_list.remove(i);
        if a + n - 1 < e {
            self.free_list.insert(i, (a + n, e));
        }
        if a > s {
            self.free_list.insert(i, (s, a - 1));
        }
        proof {
            let left: Seq<(usize, usize)> = if a > s {
                seq![(s, (a - 1) as usize)]
            } else {
                seq![]
            };
            let right: Seq<(usize, usize)> = if a + n - 1 < e {
                seq![((a + n) as usize, e)]
            } else {
                seq![]
            };
            assert(self.free_list@ =~= fl.subrange(0, i as int) + left + right + fl.subrange(
                i + 1,
                fl.len() as int,
            ));
            lemma_split_ranges(fl, self.free_list@, i as int, a as int, n as int, self.size as nat);
            assert forall|u: int|
                0 <= u < self.capacity() && #[trigger] self.is_free(u) implies is_vacant(
                self.units()[u].state,
            ) by {
                assert(old(self).is_free(u));
            }
        }
    }

    /// Places `n` units at a random start inside the first free range that is
    /// wide enough, if there is one.
    fn place_random(&mut self, n: usize) -> (r: Option<usize>)
        requires
            old(self).wf(),
            n > 0,
        ensures
            final(self).wf(),
            final(self).units() == old(self).units(),
            final(self).capacity() == old(self).capacity(),
            final(self).same_settings(old(self)),
            r is Some <==> fits_somewhere(old(self).free_ranges(), n as nat),
            r matches Some(a) ==> fits_at(old(self).free_ranges(), a as int, n as nat),
            r matches Some(a) ==> forall|u: int|
                #[trigger] final(self).is_free(u) <==> (old(self).is_free(u) && !(a <= u < a + n)),
            r is None ==> final(self).free_ranges() == old(self).free_ranges(),
            r is None ==> *final(self) == *old(self),
    {
        let mut i: usize = 0;
        while i < self.free_list.len()
            invariant
                *self == *old(self),
                self.wf(),
                n > 0,
                forall|k: int|
                    0 <= k < i ==> #[trigger] self.free_list@[k].1 - self.free_list@[k].0 + 1 < n,
            decreases self.free_list.len() - i,
        {
            let (s, e) = self.free_list[i];
            if e - s + 1 >= n {
                let mut start = random_between(s, e);
                let mut tries: usize = 1;
                while e - start < n - 1 && tries < RANDOM_TRIES
                    invariant
                        s <= start <= e,
                        0 < n <= e - s + 1,
                    decreases RANDOM_TRIES - tries,
                {
                    start = random_between(s, e);
                    tries = tries + 1;
                }
                if e - start < n - 1 {
                    start = random_between(s, e + 1 - n);
                }
                proof {
                    assert(self.free_list@[i as int].0 <= start && start + n - 1
                        <= self.free_list@[i as int].1);
                }
                self.split(i, start, n);
                return Some(start);
            }
            i = i + 1;
        }
        None
    }

    /// The size that growing by `required` units aims at.
    fn grown_target(&self, required: usize) -> (r: usize)
        ensures
            r == grown_size(self.capacity(), self.growth(), required as nat, self.limit()),
    {
        let calculated = match self.size.checked_mul(self.growth_factor) {
            Some(c) => c,
            None => usize::MAX,
        };
        let min_required = self.size.saturating_add(required);
        let target = if calculated >= min_required {
            calculated
        } else {
            min_required
        };
        match self.max_size {
            Some(m) => if target <= m {
                target
            } else {
                m
            },
            None => target,
        }
    }

    /// Grows the address space so that `required` more units fit, appending
    /// the new units to the free-list as one range.
    pub fn resize_heap(&mut self, required: usize) -> (r: Result<(), Error>)
        requires
            old(self).wf(),
        ensures
            final(self).wf(),
            old(self).partitioned() ==> final(self).partitioned(),
            final(self).extends(old(self)),
            r is Ok <==> (old(self).grows() && grown_size(
                old(self).capacity(),
                old(self).growth(),
                required as nat,
                old(self).limit(),
            ) > old(self).capacity()),
            r is Ok ==> final(self).capacity() == grown_size(
                old(self).capacity(),
                old(self).growth(),
                required as nat,
                old(self).limit(),
            ),
            r is Ok ==> final(self).free_ranges() == old(self).free_ranges().push(
                (old(self).capacity() as usize, (final(self).capacity() - 1) as usize),
            ),
            r is Ok ==> forall|u: int|
                0 <= u < final(self).capacity() ==> (#[trigger] final(self).is_free(u) <==> (u
                    >= old(self).capacity() || old(self).is_free(u))),
            r is Err ==> *final(self) == *old(self),
            r matches Err(e) ==> (e matches Error::Msg(m) && m@ == resize_error(old(self).grows())),
            old(self).limit() matches Some(m) && old(self).capacity() >= m ==> r is Err,
    {
        proof {
            assert(self.units().subrange(0, self.capacity() as int) =~= self.units());
        }
        if !self.infinite_memory {
            return Err(Error::Msg(String::from_str("Infinite memory is disabled")));
        }
        let new_size = self.grown_target(required);
        if new_size <= self.size {
            return Err(
                Error::Msg(
                    String::from_str("Cannot resize heap: new size is not larger than current size"),
                ),
            );
        }
        let old_size = self.size;
        let ghost old_alloc = *self;
        let mut i = old_size;
        while i < new_size
            invariant
                old_size <= i <= new_size,
                self.heap@.len() == i,
                self.size == old_size,
                self.free_list == old_alloc.free_list,
                self.infinite_memory == old_alloc.infinite_memory,
                self.growth_factor == old_alloc.growth_factor,
                self.max_size == old_alloc.max_size,
                self.heap@.subrange(0, old_size as int) == old_alloc.heap@,
                forall|u: int| old_size <= u < i ==> #[trigger] self.heap@[u]@ == blank_unit(),
            decreases new_size - i,
        {
            self.heap.push(blank_block());
            i = i + 1;
            assert(self.heap@.subrange(0, old_size as int) =~= old_alloc.heap@);
        }
        self.free_list.push((old_size, new_size - 1));
        self.size = new_size;
        proof {
            assert(ranges_ok(old_alloc.free_list@, old_size as nat));
            old_alloc.lemma_units();
            self.lemma_units();
            assert(self.units().subrange(0, old_size as int) =~= old_alloc.units());
            assert forall|u: int|
                0 <= u < self.capacity() implies (#[trigger] self.is_free(u) <==> (u >= old_size
                || old_alloc.is_free(u))) by {
                let fl = self.free_list@;
                if u >= old_size {
                    assert(fl[fl.len() - 1].0 <= u && u <= fl[fl.len() - 1].1);
                }
                if self.is_free(u) && u < old_size {
                    let k = choose|k: int| 0 <= k < fl.len() && #[trigger] fl[k].0 <= u && u <= fl[k].1;
                    assert(k < fl.len() - 1);
                    assert(old_alloc.free_list@[k] == fl[k]);
                }
                if old_alloc.is_free(u) {
                    let k = choose|k: int|
                        0 <= k < old_alloc.free_list@.len() && #[trigger] old_alloc.free_list@[k].0
                            <= u && u <= old_alloc.free_list@[k].1;
                    assert(fl[k] == old_alloc.free_list@[k]);
                }
            }
            assert forall|k: int, l: int| 0 <= k < l < self.free_list@.len() implies #[trigger] self.free_list@[k].1
                < #[trigger] self.free_list@[l].0 by {
                assert(self.free_list@[k] == old_alloc.free_list@[k]);
                if l < self.free_list@.len() - 1 {
                    assert(self.free_list@[l] == old_alloc.free_list@[l]);
                } else {
                    assert(old_alloc.free_list@[k].1 < old_size);
                }
            }
        }
        Ok(())
    }

    /// The index of the free range that holds `[a, a + n)`, if one does.
    fn range_holding(&self, a: usize, n: usize) -> (r: Option<usize>)
        requires
            self.wf(),
            n > 0,
        ensures
            r is None <==> !fits_at(self.free_ranges(), a as int, n as nat),
            r matches Some(i) ==> i < self.free_ranges().len() && self.free_ranges()[i as int].0
                <= a && a + n - 1 <= self.free_ranges()[i as int].1,
    {
        let mut i: usize = 0;
        while i < self.free_list.len()
            invariant
                self.wf(),
                n > 0,
                forall|k: int|
                    0 <= k < i ==> !(#[trigger] self.free_list@[k].0 <= a && a + n - 1
                        <= self.free_list@[k].1),
            decreases self.free_list.len() - i,
        {
            let (s, e) = self.free_list[i];
            if s <= a && a <= e && n - 1 <= e - a {
                return Some(i);
            }
            i = i + 1;
        }
        None
    }

    /// Reserves `size` units and returns their first address. A preferred
    /// address is used when the units there are still free; otherwise the
    /// block goes to a random place in a free range that is wide enough, and
    /// that address is returned a second time, as a hint for later runs.
    /// When no free range is wide enough and growth is enabled, the address
    /// space grows once and the search is made again.
    pub fn allocate(&mut self, size: usize, starting_pointer: Option<usize>) -> (r: Result<
        (usize, Option<usize>),
        Error,
    >)
        requires
            old(self).wf(),
            size > 0,
        ensures
            final(self).wf(),
            final(self).extends(old(self)),
            r is Ok <==> (fits_somewhere(old(self).free_ranges(), size as nat) || (old(self).grows()
                && grown_size(old(self).capacity(), old(self).growth(), size as nat, old(self).limit())
                >= old(self).capacity() + size)),
            fits_somewhere(old(self).free_ranges(), size as nat) ==> final(self).capacity()
                == old(self).capacity(),
            r matches Ok((a, _)) ==> a + size <= final(self).capacity(),
            r matches Ok((a, _)) ==> (fits_somewhere(old(self).free_ranges(), size as nat)
                ==> fits_at(old(self).free_ranges(), a as int, size as nat)),
            r matches Ok((a, _)) ==> (!fits_somewhere(old(self).free_ranges(), size as nat)
                ==> final(self).capacity() > old(self).capacity() && a >= old(self).capacity()),
            r matches Ok((a, _)) ==> forall|u: int|
                0 <= u < final(self).capacity() ==> (#[trigger] final(self).is_free(u) <==> ((u
                    >= old(self).capacity() || old(self).is_free(u)) && !(a <= u < a + size))),
            r matches Ok((a, h)) ==> (h is None <==> (starting_pointer matches Some(p) && fits_at(
                old(self).free_ranges(),
                p as int,
                size as nat,
            ))),
            r matches Ok((a, h)) ==> (h matches Some(x) ==> x == a),
            r matches Ok((a, _)) ==> forall|u: int|
                a <= u < a + size ==> u >= old(self).capacity() || #[trigger] old(self).is_free(u),
            r is Err ==> *final(self) == *old(self),
            r matches Err(e) ==> (e matches Error::Msg(m) && m@ == allocate_error(
                old(self).grows(),
                old(self).capacity(),
                grown_size(old(self).capacity(), old(self).growth(), size as nat, old(self).limit()),
                size as nat,
            )),
            r matches Ok((a, _)) ==> (!fits_somewhere(old(self).free_ranges(), size as nat)
                ==> final(self).capacity() == grown_size(
                old(self).capacity(),
                old(self).growth(),
                size as nat,
                old(self).limit(),
            )),
            r matches Ok((a, h)) ==> (starting_pointer is Some && fits_at(
                old(self).free_ranges(),
                starting_pointer->0 as int,
                size as nat,
            ) ==> a == starting_pointer->0),
    {
        proof {
            assert(self.units().subrange(0, self.capacity() as int) =~= self.units());
        }
        if let Some(p) = starting_pointer {
            if let Some(i) = self.range_holding(p, size) {
                let ghost before = *self;
                self.split(i, p, size);
                proof {
                    assert(fits_somewhere(before.free_ranges(), size as nat)) by {
                        let fl = before.free_ranges();
                        assert(fl[i as int].1 - fl[i as int].0 + 1 >= size);
                    }
                    assert(self.units().subrange(0, self.capacity() as int) =~= self.units());
                    assert forall|u: int| p <= u < p + size implies #[trigger] before.is_free(u) by {
                        let fl = before.free_ranges();
                        assert(fl[i as int].0 <= u && u <= fl[i as int].1);
                    }
                }
                return Ok((p, None));
            }
        }
        let ghost first = *self;
        if let Some(a) = self.place_random(size) {
            proof {
                assert(self.units().subrange(0, self.capacity() as int) =~= self.units());
                let fl = first.free_ranges();
                let k = choose|k: int|
                    0 <= k < fl.len() && #[trigger] fl[k].0 <= a && a + size - 1 <= fl[k].1;
                assert forall|u: int| a <= u < a + size implies #[trigger] first.is_free(u) by {
                    assert(fl[k].0 <= u && u <= fl[k].1);
                }
            }
            return Ok((a, Some(a)));
        }
        if !self.infinite_memory {
            proof {
                assert(self.units().subrange(0, self.capacity() as int) =~= self.units());
            }
            return Err(Error::Msg(String::from_str("Insufficient memory")));
        }
        let ghost before = *self;
        let target = self.grown_target(size);
        if target <= self.size {
            let m = crate::text::concat2(
                "Failed to resize heap: ",
                "Cannot resize heap: new size is not larger than current size",
            );
            return Err(Error::Msg(m));
        }
        if target - self.size < size {
            let m = crate::text::concat2(
                "Failed to resize heap: ",
                "Cannot resize heap: would exceed maximum size limit",
            );
            return Err(Error::Msg(m));
        }
        let grew = self.resize_heap(size);
        proof {
            assert(grew is Ok);
        }
        let ghost grown = *self;
        let placed = self.place_random(size);
        proof {
            let fl = grown.free_ranges();
            assert(fl[fl.len() - 1].1 - fl[fl.len() - 1].0 + 1 >= size);
        }
        match placed {
            Some(a) => {
                proof {
                    let fl = grown.free_ranges();
                    let k = choose|k: int|
                        0 <= k < fl.len() && #[trigger] fl[k].0 <= a && a + size - 1 <= fl[k].1;
                    if k < fl.len() - 1 {
                        assert(before.free_ranges()[k] == fl[k]);
                        assert(fl[k].1 - fl[k].0 + 1 >= size);
                        assert(fits_somewhere(before.free_ranges(), size as nat));
                    }
                    assert(self.units() == grown.units());
                }
                Ok((a, Some(a)))
            },
            None => Err(Error::Msg(String::from_str("Insufficient memory"))),
        }
    }

    /// Whether `[pointer, pointer + size)` is a non-empty range of the address
    /// space whose units all belong to allocated or leaked blocks.
    pub fn is_reserved(&self, pointer: usize, size: usize) -> (r: bool)
        requires
            self.partitioned(),
        ensures
            r == self.reserved(pointer as int, size as int),
    {
        proof {
            self.lemma_units();
        }
        if size == 0 || pointer >= self.size || size > self.size - pointer {
            return false;
        }
        let mut i = pointer;
        while i < pointer + size
            invariant
                self.partitioned(),
                pointer <= i <= pointer + size <= self.size,
                forall|u: int| pointer <= u < i ==> !#[trigger] self.is_free(u),
            decreases pointer + size - i,
        {
            proof {
                self.lemma_units();
            }
            let st = self.heap[i].block_state;
            if st == HeapBlockState::Unallocated || st == HeapBlockState::Free {
                assert(self.is_free(i as int));
                return false;
            }
            i = i + 1;
        }
        true
    }

    /// Writes `block_to_write` as an allocated block at `pointer`. A block
    /// that ends past the address space grows it when growth is enabled,
    /// and the new units it covers leave the free-list; otherwise it is an
    /// error, and nothing changes.
    pub fn write(&mut self, pointer: usize, block_to_write: HeapBlock) -> (r: Result<(), Error>)
        requires
            old(self).wf(),
            block_to_write.size > 0,
            forall|u: int|
                pointer <= u < pointer + block_to_write.size && u < old(self).capacity()
                    ==> !#[trigger] old(self).is_free(u),
        ensures
            final(self).wf(),
            old(self).partitioned() ==> final(self).partitioned(),
            final(self).same_settings(old(self)),
            ({
                let end = pointer + block_to_write.size;
                let grown = grown_size(
                    old(self).capacity(),
                    old(self).growth(),
                    block_to_write.size as nat,
                    old(self).limit(),
                );
                &&& r is Ok <==> (end <= old(self).capacity() || (old(self).grows() && grown
                    > old(self).capacity() && end <= grown))
                &&& r is Err ==> *final(self) == *old(self)
                &&& r matches Err(e) ==> (e matches Error::Msg(m) && m@ == if !old(self).grows()
                    || grown > old(self).capacity() {
                    "Invalid write operation: out of bounds"@
                } else {
                    "Failed to resize heap for write operation: "@ + resize_error(true)
                })
                &&& (r is Ok && end <= old(self).capacity()) ==> final(self).free_ranges() == old(
                    self,
                ).free_ranges()
                &&& r is Ok ==> final(self).capacity() == if end <= old(self).capacity() {
                    old(self).capacity()
                } else {
                    grown
                }
            }),
            r is Ok ==> forall|u: int|
                0 <= u < final(self).capacity() ==> #[trigger] final(self).units()[u] == if pointer
                    <= u < pointer + block_to_write.size {
                    HeapBlockView {
                        state: HeapBlockState::Allocated,
                        owner: block_to_write@.owner,
                        dangling: if pointer < old(self).capacity() {
                            old(self).units()[pointer as int].dangling
                        } else {
                            None
                        },
                        size: block_to_write.size,
                        metadata: block_to_write@.metadata,
                        pointer,
                    }
                } else if u < old(self).capacity() {
                    old(self).units()[u]
                } else {
                    blank_unit()
                },
            r is Ok ==> forall|u: int|
                0 <= u < final(self).capacity() ==> (#[trigger] final(self).is_free(u) <==> ((u
                    >= old(self).capacity() || old(self).is_free(u)) && !(pointer <= u < pointer
                    + block_to_write.size))),
    {
        let size = block_to_write.size;
        proof {
            self.lemma_units();
        }
        if pointer <= self.size && size <= self.size - pointer {
            let ghost before = *self;
            self.record(pointer, block_to_write);
            proof {
                assert forall|u: int| 0 <= u < self.capacity() implies (#[trigger] self.is_free(u)
                    <==> ((u >= before.capacity() || before.is_free(u)) && !(pointer <= u
                    < pointer + size))) by {
                    assert(self.is_free(u) == before.is_free(u));
                }
                if before.partitioned() {
                    assert forall|u: int| 0 <= u < self.capacity() implies (#[trigger] self.is_free(
                        u,
                    ) <==> is_vacant(self.units()[u].state)) by {
                        assert(self.is_free(u) == before.is_free(u));
                    }
                }
            }
            return Ok(());
        }
        if !self.infinite_memory {
            return Err(Error::Msg(String::from_str("Invalid write operation: out of bounds")));
        }
        let target = self.grown_target(size);
        if target > self.size && (pointer > target || size > target - pointer) {
            return Err(Error::Msg(String::from_str("Invalid write operation: out of bounds")));
        }
        let ghost before = *self;
        let old_size = self.size;
        match self.resize_heap(size) {
            Ok(()) => {},
            Err(e) => {
                let m = crate::text::concat2(
                    "Failed to resize heap for write operation: ",
                    e.message().as_str(),
                );
                return Err(Error::Msg(m));
            },
        }
        let ghost grown = *self;
        let last = self.free_list.len() - 1;
        let start = if pointer > old_size {
            pointer
        } else {
            old_size
        };
        let end = pointer + size;
        proof {
            assert(self.free_list@[last as int] == (old_size, (self.size - 1) as usize));
        }
        self.split(last, start, end - start);
        proof {
            assert forall|u: int| pointer <= u < pointer + size implies !#[trigger] self.is_free(u) by {
                if u < old_size {
                    assert(!before.is_free(u));
                    assert(grown.is_free(u) == (u >= old_size || before.is_free(u)));
                }
            }
        }
        let ghost mid = *self;
        self.record(pointer, block_to_write);
        proof {
            assert forall|u: int| 0 <= u < old_size implies #[trigger] mid.units()[u] == before.units()[u] by {
                assert(grown.units().subrange(0, old_size as int)[u] == grown.units()[u]);
            }
            assert forall|u: int| 0 <= u < self.capacity() implies (#[trigger] self.is_free(u)
                <==> ((u >= before.capacity() || before.is_free(u)) && !(pointer <= u < pointer
                + size))) by {
                assert(self.is_free(u) == mid.is_free(u));
                assert(grown.is_free(u) == (u >= old_size || before.is_free(u)));
            }
            if before.partitioned() {
                assert forall|u: int| 0 <= u < self.capacity() implies (#[trigger] self.is_free(u)
                    <==> is_vacant(self.units()[u].state)) by {
                    assert(self.is_free(u) == mid.is_free(u));
                    assert(grown.is_free(u) == (u >= old_size || before.is_free(u)));
                    if u >= old_size && !(pointer <= u < pointer + size) {
                        assert(grown.units()[u] == blank_unit());
                    }
                    if u < old_size && !(pointer <= u < pointer + size) {
                        assert(before.is_free(u) <==> is_vacant(before.units()[u].state));
                    }
                }
            }
        }
        Ok(())
    }

    /// Records `block_to_write` as an allocated block at `pointer`, on every
    /// unit it covers. The dangling references held at `pointer` stay.
    fn record(&mut self, pointer: usize, block_to_write: HeapBlock)
        requires
            old(self).wf(),
            old(self).reserved(pointer as int, block_to_write.size as int),
        ensures
            final(self).wf(),
            final(self).free_ranges() == old(self).free_ranges(),
            final(self).capacity() == old(self).capacity(),
            final(self).same_settings(old(self)),
            forall|u: int|
                0 <= u < final(self).capacity() ==> #[trigger] final(self).units()[u] == if pointer
                    <= u < pointer + block_to_write.size {
                    HeapBlockView {
                        state: HeapBlockState::Allocated,
                        owner: block_to_write@.owner,
                        dangling: old(self).units()[pointer as int].dangling,
                        size: block_to_write.size,
                        metadata: block_to_write@.metadata,
                        pointer,
                    }
                } else {
                    old(self).units()[u]
                },
    {
        proof {
            self.lemma_units();
        }
        let end = pointer + block_to_write.size;
        let dangling = copy_dangling(&self.heap[pointer].dangling_pointer_identifiers);
        let ghost old_units = self.units();
        let mut i = pointer;
        while i < end
            invariant
                old(self).wf(),
                old(self).reserved(pointer as int, block_to_write.size as int),
                end == pointer + block_to_write.size,
                pointer <= i <= end <= self.size,
                self.size == old(self).size,
                self.free_list == old(self).free_list,
                self.infinite_memory == old(self).infinite_memory,
                self.growth_factor == old(self).growth_factor,
                self.max_size == old(self).max_size,
                self.heap@.len() == self.size,
                old_units == old(self).units(),
                dangling_view(dangling) == old_units[pointer as int].dangling,
                forall|u: int|
                    0 <= u < self.size ==> #[trigger] self.heap@[u]@ == if pointer <= u < i {
                        HeapBlockView {
                            state: HeapBlockState::Allocated,
                            owner: block_to_write@.owner,
                            dangling: old_units[pointer as int].dangling,
                            size: block_to_write.size,
                            metadata: block_to_write@.metadata,
                            pointer,
                        }
                    } else {
                        old_units[u]
                    },
            decreases end - i,
        {
            self.heap[i] = HeapBlock {
                block_state: HeapBlockState::Allocated,
                current_pointer_identifier: match &block_to_write.current_pointer_identifier {
                    Some(s) => Some(s.clone()),
                    None => None,
                },
                dangling_pointer_identifiers: copy_dangling(&dangling),
                size: block_to_write.size,
                metadata: block_to_write.metadata.clone(),
                pointer,
            };
            i = i + 1;
        }
        proof {
            self.lemma_units();
            assert forall|u: int|
                0 <= u < self.capacity() && #[trigger] self.is_free(u) implies is_vacant(
                self.units()[u].state,
            ) by {
                assert(old(self).is_free(u));
            }
        }
    }

    /// Marks the units of `[pointer, pointer + size)` as one block in state
    /// `state`, with the owner and text given, keeping the dangling
    /// references held at `pointer`.
    fn mark(&mut self, pointer: usize, size: usize, state: HeapBlockState, owner: &Option<String>, text: &str)
        requires
            old(self).wf(),
            old(self).reserved(pointer as int, size as int),
        ensures
            final(self).free_ranges() == old(self).free_ranges(),
            final(self).capacity() == old(self).capacity(),
            final(self).same_settings(old(self)),
            final(self).units().len() == old(self).units().len(),
            forall|u: int|
                0 <= u < final(self).capacity() ==> #[trigger] final(self).units()[u] == if pointer
                    <= u < pointer + size {
                    HeapBlockView {
                        state,
                        owner: match owner {
                            Some(o) => Some(o@),
                            None => None,
                        },
                        dangling: old(self).units()[pointer as int].dangling,
                        size,
                        metadata: text@,
                        pointer,
                    }
                } else {
                    old(self).units()[u]
                },
    {
        proof {
            self.lemma_units();
        }
        let end = pointer + size;
        let dangling = copy_dangling(&self.heap[pointer].dangling_pointer_identifiers);
        let ghost old_units = self.units();
        let ghost ov = match owner {
            Some(o) => Some(o@),
            None => None,
        };
        let mut i = pointer;
        while i < end
            invariant
                end == pointer + size,
                pointer <= i <= end <= self.size,
                self.size == old(self).size,
                self.free_list == old(self).free_list,
                self.infinite_memory == old(self).infinite_memory,
                self.growth_factor == old(self).growth_factor,
                self.max_size == old(self).max_size,
                self.heap@.len() == self.size,
                old_units == old(self).units(),
                old_units.len() == self.size,
                pointer < old_units.len(),
                dangling_view(dangling) == old_units[pointer as int].dangling,
                ov == match owner {
                    Some(o) => Some(o@),
                    None => None,
                },
                forall|u: int|
                    0 <= u < self.size ==> #[trigger] self.heap@[u]@ == if pointer <= u < i {
                        HeapBlockView {
                            state,
                            owner: ov,
                            dangling: old_units[pointer as int].dangling,
                            size,
                            metadata: text@,
                            pointer,
                        }
                    } else {
                        old_units[u]
                    },
            decreases end - i,
        {
            self.heap[i] = HeapBlock {
                block_state: state,
                current_pointer_identifier: match owner {
                    Some(s) => Some(s.clone()),
                    None => None,
                },
                dangling_pointer_identifiers: copy_dangling(&dangling),
                size,
                metadata: String::from_str(text),
                pointer,
            };
            i = i + 1;
        }
        proof {
            self.lemma_units();
        }
    }

    /// Marks the block `[pointer, pointer + size)` free and returns its units
    /// to the free-list, at their place in address order. Free ranges are not
    /// merged, so that fragmentation stays visible.
    #[verifier::rlimit(60)]
    pub fn free(&mut self, pointer: usize, size: usize)
        requires
            old(self).partitioned(),
            old(self).reserved(pointer as int, size as int),
        ensures
            final(self).partitioned(),
            final(self).capacity() == old(self).capacity(),
            final(self).same_settings(old(self)),
            forall|u: int|
                0 <= u < final(self).capacity() ==> #[trigger] final(self).units()[u] == if pointer
                    <= u < pointer + size {
                    HeapBlockView {
                        state: HeapBlockState::Free,
                        owner: None,
                        dangling: old(self).units()[pointer as int].dangling,
                        size,
                        metadata: free_text(),
                        pointer,
                    }
                } else {
                    old(self).units()[u]
                },
            forall|u: int|
                #[trigger] final(self).is_free(u) <==> (old(self).is_free(u) || (pointer <= u
                    < pointer + size)),
            final(self).free_ranges().contains((pointer, (pointer + size - 1) as usize)),
    {
        let ghost fl = self.free_list@;
        self.mark(pointer, size, HeapBlockState::Free, &None, "Free Block");
        let mut k: usize = 0;
        while k < self.free_list.len() && self.free_list[k].0 < pointer
            invariant
                k <= self.free_list@.len(),
                self.free_list@ == fl,
                forall|j: int| 0 <= j < k ==> (#[trigger] fl[j]).0 < pointer,
            decreases self.free_list.len() - k,
        {
            k = k + 1;
        }
        self.free_list.insert(k, (pointer, pointer + size - 1));
        proof {
            assert(self.free_list@[k as int] == (pointer, (pointer + size - 1) as usize));
            let nfl = self.free_list@;
            let a = pointer as int;
            let e = pointer + size - 1;
            assert(ranges_ok(fl, old(self).capacity()));
            assert(forall|j: int| 0 <= j < k ==> nfl[j] == fl[j]);
            assert(forall|j: int| k < j < nfl.len() ==> nfl[j] == fl[j - 1]);
            if k > 0 {
                let j = k - 1;
                assert(fl[j].0 < pointer);
                if fl[j].1 >= a {
                    assert(fl[j].0 <= a && a <= fl[j].1);
                    assert(old(self).is_free(a));
                }
            }
            if k < fl.len() {
                assert(fl[k as int].0 >= pointer);
                if fl[k as int].0 <= e {
                    assert(fl[k as int].0 <= fl[k as int].0 && fl[k as int].0 <= fl[k as int].1);
                    assert(old(self).is_free(fl[k as int].0 as int));
                }
            }
            assert forall|i: int, l: int| 0 <= i < l < nfl.len() implies #[trigger] nfl[i].1
                < #[trigger] nfl[l].0 by {
                if i < k && l > k {
                    assert(fl[i].1 < fl[l - 1].0);
                } else if i > k {
                    assert(fl[i - 1].1 < fl[l - 1].0);
                } else if i < k && l < k {
                } else if i == k && l > k {
                    if l - 1 > k {
                        assert(fl[k as int].1 < fl[l - 1].0);
                        assert(fl[k as int].0 <= fl[k as int].1);
                    }
                } else {
                    if i < k - 1 {
                        assert(fl[i].1 < fl[k - 1].0);
                        assert(fl[k - 1].0 <= fl[k - 1].1);
                    }
                }
            }
            assert forall|i: int| 0 <= i < nfl.len() implies (#[trigger] nfl[i]).0 <= nfl[i].1
                && nfl[i].1 < self.capacity() by {
                if i < k {
                } else if i > k {
                    assert(nfl[i] == fl[i - 1]);
                }
            }
            assert forall|u: int| #[trigger] self.is_free(u) <==> (old(self).is_free(u) || (a <= u
                < a + size)) by {
                if self.is_free(u) {
                    let j = choose|j: int| 0 <= j < nfl.len() && #[trigger] nfl[j].0 <= u && u <= nfl[j].1;
                    if j < k {
                        assert(fl[j].0 <= u && u <= fl[j].1);
                    } else if j > k {
                        assert(fl[j - 1].0 <= u && u <= fl[j - 1].1);
                    }
                }
                if old(self).is_free(u) {
                    let j = choose|j: int| 0 <= j < fl.len() && #[trigger] fl[j].0 <= u && u <= fl[j].1;
                    if j < k {
                        assert(nfl[j].0 <= u && u <= nfl[j].1);
                    } else {
                        assert(nfl[j + 1].0 <= u && u <= nfl[j + 1].1);
                    }
                }
                if a <= u < a + size {
                    assert(nfl[k as int].0 <= u && u <= nfl[k as int].1);
                }
            }
        }
    }

    /// Marks the block `[pointer, pointer + size)` as leaked: its units stay
    /// out of the free-list for good.
    pub fn leak(&mut self, pointer: usize, size: usize)
        requires
            old(self).partitioned(),
            old(self).reserved(pointer as int, size as int),
        ensures
            final(self).partitioned(),
            final(self).capacity() == old(self).capacity(),
            final(self).same_settings(old(self)),
            final(self).free_ranges() == old(self).free_ranges(),
            forall|u: int|
                0 <= u < final(self).capacity() ==> #[trigger] final(self).units()[u] == if pointer
                    <= u < pointer + size {
                    HeapBlockView {
                        state: HeapBlockState::Leaked,
                        owner: Some(leaked_text()),
                        dangling: old(self).units()[pointer as int].dangling,
                        size,
                        metadata: leaked_text(),
                        pointer,
                    }
                } else {
                    old(self).units()[u]
                },
    {
        let owner = Some(String::from_str("Leaked Block"));
        self.mark(pointer, size, HeapBlockState::Leaked, &owner, "Leaked Block");
        proof {
            assert forall|u: int| 0 <= u < self.capacity() implies (#[trigger] self.is_free(u)
                <==> is_vacant(self.units()[u].state)) by {
                if pointer <= u < pointer + size {
                    assert(!old(self).is_free(u));
                } else {
                    assert(old(self).is_free(u) <==> is_vacant(old(self).units()[u].state));
                }
            }
        }
    }

    /// Whether the block recorded at `pointer` lies inside the address space.
    pub open spec fn block_in_bounds(&self, pointer: int) -> bool {
        &&& 0 <= pointer < self.capacity()
        &&& self.units()[pointer].size > 0
        &&& pointer + self.units()[pointer].size <= self.capacity()
    }

    fn check_block(&self, pointer: usize) -> (r: bool)
        requires
            self.wf(),
        ensures
            r == self.block_in_bounds(pointer as int),
    {
        proof {
            self.lemma_units();
        }
        pointer < self.size && self.heap[pointer].size > 0 && self.heap[pointer].size
            <= self.size - pointer
    }

    /// Sets the value shown by every unit of the block at `pointer`.
    pub fn update_metadata(&mut self, pointer: usize, metadata: String) -> (r: Result<(), Error>)
        requires
            old(self).wf(),
        ensures
            final(self).wf(),
            old(self).partitioned() ==> final(self).partitioned(),
            final(self).free_ranges() == old(self).free_ranges(),
            final(self).capacity() == old(self).capacity(),
            final(self).same_settings(old(self)),
            r is Ok <==> old(self).block_in_bounds(pointer as int),
            r is Err ==> *final(self) == *old(self),
            r matches Err(e) ==> (e matches Error::Msg(m) && m@ == "Invalid metadata update operation: out of bounds"@),
            r is Ok ==> forall|u: int|
                0 <= u < final(self).capacity() ==> #[trigger] final(self).units()[u]
                    == updated_unit(
                    old(self).units(),
                    pointer as int,
                    u,
                    with_metadata(old(self).units()[u], metadata@),
                ),
    {
        if !self.check_block(pointer) {
            return Err(
                Error::Msg(String::from_str("Invalid metadata update operation: out of bounds")),
            );
        }
        proof {
            self.lemma_units();
        }
        let end = pointer + self.heap[pointer].size;
        let ghost old_units = self.units();
        let mut i = pointer;
        while i < end
            invariant
                pointer <= i <= end <= self.size,
                end == pointer + old_units[pointer as int].size,
                self.size == old(self).size,
                self.free_list == old(self).free_list,
                self.infinite_memory == old(self).infinite_memory,
                self.growth_factor == old(self).growth_factor,
                self.max_size == old(self).max_size,
                self.heap@.len() == self.size,
                old_units == old(self).units(),
                old_units.len() == self.size,
                forall|u: int|
                    0 <= u < self.size ==> #[trigger] self.heap@[u]@ == if pointer <= u < i {
                        with_metadata(old_units[u], metadata@)
                    } else {
                        old_units[u]
                    },
            decreases end - i,
        {
            let mut b = self.heap[i].duplicate();
            b.metadata = metadata.clone();
            self.heap[i] = b;
            i = i + 1;
        }
        proof {
            self.lemma_units();
            assert(forall|u: int|
                0 <= u < self.capacity() ==> #[trigger] self.units()[u].state == old(self).units()[u].state);
            assert(self.free_ranges() == old(self).free_ranges());
            assert forall|u: int| 0 <= u < self.capacity() implies #[trigger] self.is_free(u)
                == old(self).is_free(u) && self.units()[u].state == old(self).units()[u].state by {
            }
        }
        Ok(())
    }

    /// Records `dangling_pointer_identifier` as a dangling reference on every
    /// unit of the block at `pointer`.
    pub fn insert_dangling_pointer(&mut self, pointer: usize, dangling_pointer_identifier: String) -> (r:
        Result<(), Error>)
        requires
            old(self).wf(),
        ensures
            final(self).wf(),
            old(self).partitioned() ==> final(self).partitioned(),
            final(self).free_ranges() == old(self).free_ranges(),
            final(self).capacity() == old(self).capacity(),
            final(self).same_settings(old(self)),
            r is Ok <==> old(self).block_in_bounds(pointer as int),
            r is Err ==> *final(self) == *old(self),
            r matches Err(e) ==> (e matches Error::Msg(m) && m@ == "Invalid dangling pointers update operation: out of bounds"@),
            r is Ok ==> forall|u: int|
                0 <= u < final(self).capacity() ==> #[trigger] final(self).units()[u]
                    == updated_unit(
                    old(self).units(),
                    pointer as int,
                    u,
                    with_dangling(old(self).units()[u], dangling_pointer_identifier@),
                ),
    {
        if !self.check_block(pointer) {
            return Err(
                Error::Msg(
                    String::from_str("Invalid dangling pointers update operation: out of bounds"),
                ),
            );
        }
        proof {
            self.lemma_units();
        }
        let end = pointer + self.heap[pointer].size;
        let ghost old_units = self.units();
        let ghost name = dangling_pointer_identifier@;
        let mut i = pointer;
        while i < end
            invariant
                pointer <= i <= end <= self.size,
                end == pointer + old_units[pointer as int].size,
                self.size == old(self).size,
                self.free_list == old(self).free_list,
                self.infinite_memory == old(self).infinite_memory,
                self.growth_factor == old(self).growth_factor,
                self.max_size == old(self).max_size,
                self.heap@.len() == self.size,
                old_units == old(self).units(),
                old_units.len() == self.size,
                name == dangling_pointer_identifier@,
                forall|u: int|
                    0 <= u < self.size ==> #[trigger] self.heap@[u]@ == if pointer <= u < i {
                        with_dangling(old_units[u], name)
                    } else {
                        old_units[u]
                    },
            decreases end - i,
        {
            let nd = match &self.heap[i].dangling_pointer_identifiers {
                Some(v) => {
                    let mut w = copy_names(v);
                    w.push(dangling_pointer_identifier.clone());
                    proof {
                        assert(names_view(w) =~= names_view(*v).push(name));
                    }
                    Some(w)
                },
                None => {
                    let mut w: Vec<String> = Vec::new();
                    w.push(dangling_pointer_identifier.clone());
                    proof {
                        assert(names_view(w) =~= seq![name]);
                    }
                    Some(w)
                },
            };
            let mut b = self.heap[i].duplicate();
            b.dangling_pointer_identifiers = nd;
            self.heap[i] = b;
            i = i + 1;
        }
        proof {
            self.lemma_units();
            assert(forall|u: int|
                0 <= u < self.capacity() ==> #[trigger] self.units()[u].state == old(self).units()[u].state);
            assert(self.free_ranges() == old(self).free_ranges());
            assert forall|u: int| 0 <= u < self.capacity() implies #[trigger] self.is_free(u)
                == old(self).is_free(u) && self.units()[u].state == old(self).units()[u].state by {
            }
        }
        Ok(())
    }

    /// Takes `dangling_pointer_identifier` off the dangling references of
    /// every unit of the block at `pointer`, once.
    pub fn remove_dangling_pointer(&mut self, pointer: usize, dangling_pointer_identifier: String) -> (r:
        Result<(), Error>)
        requires
            old(self).wf(),
        ensures
            final(self).wf(),
            old(self).partitioned() ==> final(self).partitioned(),
            final(self).free_ranges() == old(self).free_ranges(),
            final(self).capacity() == old(self).capacity(),
            final(self).same_settings(old(self)),
            r is Ok <==> old(self).block_in_bounds(pointer as int),
            r is Err ==> *final(self) == *old(self),
            r matches Err(e) ==> (e matches Error::Msg(m) && m@ == "Invalid dangling pointers update operation: out of bounds"@),
            r is Ok ==> forall|u: int|
                0 <= u < final(self).capacity() ==> #[trigger] final(self).units()[u]
                    == updated_unit(
                    old(self).units(),
                    pointer as int,
                    u,
                    without_dangling(old(self).units()[u], dangling_pointer_identifier@),
                ),
    {
        if !self.check_block(pointer) {
            return Err(
                Error::Msg(
                    String::from_str("Invalid dangling pointers update operation: out of bounds"),
                ),
            );
        }
        proof {
            self.lemma_units();
        }
        let end = pointer + self.heap[pointer].size;
        let ghost old_units = self.units();
        let ghost name = dangling_pointer_identifier@;
        let mut i = pointer;
        while i < end
            invariant
                pointer <= i <= end <= self.size,
                end == pointer + old_units[pointer as int].size,
                self.size == old(self).size,
                self.free_list == old(self).free_list,
                self.infinite_memory == old(self).infinite_memory,
                self.growth_factor == old(self).growth_factor,
                self.max_size == old(self).max_size,
                self.heap@.len() == self.size,
                old_units == old(self).units(),
                old_units.len() == self.size,
                name == dangling_pointer_identifier@,
                forall|u: int|
                    0 <= u < self.size ==> #[trigger] self.heap@[u]@ == if pointer <= u < i {
                        without_dangling(old_units[u], name)
                    } else {
                        old_units[u]
                    },
            decreases end - i,
        {
            let nd = match &self.heap[i].dangling_pointer_identifiers {
                Some(v) => {
                    let mut w = copy_names(v);
                    remove_name(&mut w, &dangling_pointer_identifier);
                    Some(w)
                },
                None => None,
            };
            let mut b = self.heap[i].duplicate();
            b.dangling_pointer_identifiers = nd;
            self.heap[i] = b;
            i = i + 1;
        }
        proof {
            self.lemma_units();
            assert(forall|u: int|
                0 <= u < self.capacity() ==> #[trigger] self.units()[u].state == old(self).units()[u].state);
            assert(self.free_ranges() == old(self).free_ranges());
            assert forall|u: int| 0 <= u < self.capacity() implies #[trigger] self.is_free(u)
                == old(self).is_free(u) && self.units()[u].state == old(self).units()[u].state by {
            }
        }
        Ok(())
    }

    /// Allocates a block of `value_size` units for the pointer named
    /// `current_pointer_identifier` and records it as allocated, with an empty
    /// value. The hint remembered for that name is tried first; when it cannot
    /// be used, the address chosen becomes the new hint.
    pub fn allocate_and_write(
        &mut self,
        current_pointer_identifier: &String,
        value_size: usize,
        starting_pointers: &mut IndexMap<String, usize>,
    ) -> (r: Result<usize, Error>)
        requires
            old(self).partitioned(),
            value_size > 0,
        ensures
            final(self).partitioned(),
            final(self).same_settings(old(self)),
            final(self).capacity() >= old(self).capacity(),
            r is Ok <==> (fits_somewhere(old(self).free_ranges(), value_size as nat) || (old(
                self,
            ).grows() && grown_size(
                old(self).capacity(),
                old(self).growth(),
                value_size as nat,
                old(self).limit(),
            ) >= old(self).capacity() + value_size)),
            fits_somewhere(old(self).free_ranges(), value_size as nat) ==> final(self).capacity()
                == old(self).capacity(),
            r matches Ok(a) ==> a + value_size <= final(self).capacity(),
            r matches Ok(a) ==> forall|u: int|
                a <= u < a + value_size ==> u >= old(self).capacity() || #[trigger] old(
                    self,
                ).is_free(u),
            r matches Ok(a) ==> (fits_somewhere(old(self).free_ranges(), value_size as nat)
                ==> fits_at(old(self).free_ranges(), a as int, value_size as nat)),
            r matches Ok(a) ==> forall|u: int|
                0 <= u < final(self).capacity() ==> (#[trigger] final(self).is_free(u) <==> ((u
                    >= old(self).capacity() || old(self).is_free(u)) && !(a <= u < a + value_size))),
            r matches Ok(a) ==> forall|u: int|
                0 <= u < final(self).capacity() ==> #[trigger] final(self).units()[u] == if a <= u
                    < a + value_size {
                    HeapBlockView {
                        state: HeapBlockState::Allocated,
                        owner: Some(current_pointer_identifier@),
                        dangling: if a < old(self).capacity() {
                            old(self).units()[a as int].dangling
                        } else {
                            None
                        },
                        size: value_size,
                        metadata: Seq::empty(),
                        pointer: a,
                    }
                } else if u < old(self).capacity() {
                    old(self).units()[u]
                } else {
                    blank_unit()
                },
            r matches Ok(a) ==> hint_entries(*final(starting_pointers)) == if hint_usable(
                hint_entries(*old(starting_pointers)),
                current_pointer_identifier@,
                old(self).free_ranges(),
                value_size as nat,
            ) {
                hint_entries(*old(starting_pointers))
            } else {
                upsert(hint_entries(*old(starting_pointers)), current_pointer_identifier@, a)
            },
            r matches Ok(a) ==> (hint_usable(
                hint_entries(*old(starting_pointers)),
                current_pointer_identifier@,
                old(self).free_ranges(),
                value_size as nat,
            ) ==> lookup(hint_entries(*old(starting_pointers)), current_pointer_identifier@)
                == Some(a)),
            r is Err ==> *final(self) == *old(self),
            r matches Err(e) ==> (e matches Error::Msg(m) && m@ == allocate_error(
                old(self).grows(),
                old(self).capacity(),
                grown_size(old(self).capacity(), old(self).growth(), value_size as nat, old(self).limit()),
                value_size as nat,
            )),
            r is Err ==> hint_entries(*final(starting_pointers)) == hint_entries(
                *old(starting_pointers),
            ),
            unique_keys(hint_entries(*old(starting_pointers))) ==> unique_keys(
                hint_entries(*final(starting_pointers)),
            ),
    {
        let starting_pointer = hint_get(starting_pointers, current_pointer_identifier);
        let ghost before = *self;
        let (ptr, start_pointer) = match self.allocate(value_size, starting_pointer) {
            Ok(x) => x,
            Err(e) => {
                proof {
                    assert forall|u: int| 0 <= u < self.capacity() implies (#[trigger] self.is_free(u)
                        <==> is_vacant(self.units()[u].state)) by {
                        if u < before.capacity() {
                            assert(self.units().subrange(0, before.capacity() as int)[u]
                                == self.units()[u]);
                            assert(before.is_free(u) <==> is_vacant(before.units()[u].state));
                        }
                    }
                    assert forall|u: int| 0 <= u < before.capacity() implies #[trigger] self.units()[u]
                        == before.units()[u] by {
                        assert(self.units().subrange(0, before.capacity() as int)[u]
                            == self.units()[u]);
                    }
                }
                return Err(e);
            },
        };
        if let Some(p) = start_pointer {
            hint_insert(starting_pointers, current_pointer_identifier.clone(), p);
        }
        let ghost mid = *self;
        proof {
            assert forall|u: int| ptr <= u < ptr + value_size implies !#[trigger] mid.is_free(u) by {
            }
            assert(mid.units().len() == mid.capacity());
            assert forall|u: int| old(self).capacity() <= u < mid.capacity() implies #[trigger] mid.units()[u] == blank_unit() by {
            }
        }
        self.record(
            ptr,
            HeapBlock {
                block_state: HeapBlockState::Allocated,
                current_pointer_identifier: Some(current_pointer_identifier.clone()),
                dangling_pointer_identifiers: None,
                size: value_size,
                metadata: String::new(),
                pointer: ptr,
            },
        );
        proof {
            assert forall|u: int| 0 <= u < old(self).capacity() implies mid.units()[u] == old(self).units()[u] by {
                assert(mid.units().subrange(0, old(self).capacity() as int)[u] == mid.units()[u]);
            }
            assert forall|u: int| 0 <= u < self.capacity() implies (#[trigger] self.is_free(u)
                <==> is_vacant(self.units()[u].state)) by {
                assert(self.is_free(u) == mid.is_free(u));
                if ptr <= u < ptr + value_size {
                    assert(!mid.is_free(u));
                } else if u < old(self).capacity() {
                    assert(old(self).is_free(u) <==> is_vacant(old(self).units()[u].state));
                } else {
                    assert(mid.units()[u] == blank_unit());
                }
            }
        }
        Ok(ptr)
    }

    /// The units with each maximal run of unallocated units replaced by one
    /// record of the run's length.
    fn convert_unallocated_blocks(&self) -> (r: Vec<HeapBlock>)
        ensures
            blocks_view(r@) == coalesced(self.units()),
    {
        proof {
            self.lemma_units();
        }
        let ghost units = self.units();
        let mut new_heap: Vec<HeapBlock> = Vec::new();
        let mut unallocated_start: Option<usize> = None;
        let mut unallocated_size: usize = 0;
        let mut i: usize = 0;
        while i < self.heap.len()
            invariant
                i <= self.heap@.len(),
                units == self.units(),
                units.len() == self.heap@.len(),
                blocks_view(new_heap@) == coalesce_prefix(units, i as int).0,
                match unallocated_start {
                    Some(st) => coalesce_prefix(units, i as int).1 == Some(
                        (st as int, unallocated_size as int),
                    ) && unallocated_size <= i,
                    None => coalesce_prefix(units, i as int).1 is None,
                },
            decreases self.heap.len() - i,
        {
            proof {
                self.lemma_units();
            }
            let block = &self.heap[i];
            let blank = block.current_pointer_identifier.is_none() && text_eq(
                block.metadata.as_str(),
                "Unallocated Block",
            );
            if blank {
                if unallocated_start.is_none() {
                    unallocated_start = Some(i);
                    unallocated_size = 0;
                }
                unallocated_size = unallocated_size + 1;
            } else {
                if let Some(start) = unallocated_start {
                    new_heap.push(run_record(start, unallocated_size));
                    unallocated_start = None;
                    unallocated_size = 0;
                }
                new_heap.push(block.duplicate());
                proof {
                    assert(blocks_view(new_heap@) =~= coalesce_prefix(units, i + 1).0);
                }
            }
            i = i + 1;
        }
        if let Some(start) = unallocated_start {
            new_heap.push(run_record(start, unallocated_size));
        }
        proof {
            assert(blocks_view(new_heap@) =~= coalesced(units));
        }
        new_heap
    }

    /// One record per block, in address order, with the unallocated space
    /// shown in runs. Nothing changes.
    pub fn get_heap(&self) -> (r: Vec<HeapBlock>)
        ensures
            blocks_view(r@) == snapshot(self.units()),
    {
        let blocks = self.convert_unallocated_blocks();
        dedup_blocks(&blocks)
    }

    /// The current size of the address space.
    pub fn get_size(&self) -> (r: usize)
        ensures
            r == self.capacity(),
    {
        self.size
    }

    /// The free ranges, both ends included, in address order.
    pub fn get_free_list(&self) -> (r: &Vec<(usize, usize)>)
        ensures
            r@ == self.free_ranges(),
    {
        &self.free_list
    }
}
impl HeapAllocator {
    /// Merges free ranges that touch into one range; the free units stay the
    /// same. Afterwards a gap of at least one unit separates any two ranges.
    pub fn merge_free_blocks(&mut self)
        requires
            old(self).wf(),
        ensures
            final(self).wf(),
            final(self).units() == old(self).units(),
            final(self).capacity() == old(self).capacity(),
            final(self).same_settings(old(self)),
            forall|u: int| #[trigger] final(self).is_free(u) == old(self).is_free(u),
            forall|k: int|
                0 <= k < final(self).free_ranges().len() - 1 ==> #[trigger] final(self).free_ranges()[k].1
                    + 1 < final(self).free_ranges()[k + 1].0,
    {
        let ghost fl = self.free_list@;
        let n = self.free_list.len();
        if n == 0 {
            return;
        }
        let mut merged: Vec<(usize, usize)> = Vec::new();
        let mut current = self.free_list[0];
        let mut k: usize = 1;
        proof {
            assert(merged@.push(current) =~= fl.subrange(0, 1));
        }
        while k < n
            invariant
                fl == self.free_list@,
                n == fl.len(),
                1 <= k <= n,
                ranges_ok(fl, self.size as nat),
                ranges_ok(merged@.push(current), self.size as nat),
                forall|j: int|
                    0 <= j < merged@.len() - 1 ==> #[trigger] merged@[j].1 + 1 < merged@[j + 1].0,
                merged@.len() > 0 ==> merged@[merged@.len() - 1].1 + 1 < current.0,
                current.1 == fl[k - 1].1,
                forall|u: int|
                    #[trigger] in_ranges(merged@.push(current), u) == in_ranges(
                        fl.subrange(0, k as int),
                        u,
                    ),
            decreases n - k,
        {
            let next = self.free_list[k];
            let ghost before = merged@.push(current);
            proof {
                assert(fl[k - 1].1 < fl[k as int].0);
            }
            if current.1 + 1 >= next.0 {
                current = (current.0, next.1);
                proof {
                    let after = merged@.push(current);
                    let m = merged@.len() as int;
                    assert(fl[k as int] == next);
                    assert(ranges_ok(after, self.size as nat)) by {
                        assert forall|a: int, b: int| 0 <= a < b < after.len() implies #[trigger] after[a].1
                            < #[trigger] after[b].0 by {
                            assert(after[a] == before[a] || a == m);
                            if b < m {
                                assert(after[a] == before[a] && after[b] == before[b]);
                            } else {
                                assert(after[a] == before[a]);
                                assert(before[a].1 < before[m].0);
                            }
                        }
                        assert forall|a: int| 0 <= a < after.len() implies (#[trigger] after[a]).0
                            <= after[a].1 && after[a].1 < self.size by {
                            if a < m {
                                assert(after[a] == before[a]);
                            } else {
                                assert(before[m].0 <= before[m].1);
                            }
                        }
                    }
                    assert forall|u: int| #[trigger] in_ranges(after, u) == in_ranges(
                        fl.subrange(0, k + 1),
                        u,
                    ) by {
                        let m = merged@.len() as int;
                        if in_ranges(after, u) {
                            let j = choose|j: int|
                                0 <= j < after.len() && #[trigger] after[j].0 <= u && u <= after[j].1;
                            if j < m {
                                assert(before[j] == after[j]);
                                assert(in_ranges(before, u));
                                let i = choose|i: int|
                                    0 <= i < k && #[trigger] fl.subrange(0, k as int)[i].0 <= u && u
                                        <= fl.subrange(0, k as int)[i].1;
                                assert(fl.subrange(0, k + 1)[i] == fl.subrange(0, k as int)[i]);
                            } else if u <= before[m].1 {
                                assert(in_ranges(before, u));
                                let i = choose|i: int|
                                    0 <= i < k && #[trigger] fl.subrange(0, k as int)[i].0 <= u && u
                                        <= fl.subrange(0, k as int)[i].1;
                                assert(fl.subrange(0, k + 1)[i] == fl.subrange(0, k as int)[i]);
                            } else if u < next.0 {
                                assert(false);
                            } else {
                                assert(fl.subrange(0, k + 1)[k as int] == next);
                            }
                        }
                        if in_ranges(fl.subrange(0, k + 1), u) {
                            let i = choose|i: int|
                                0 <= i < k + 1 && #[trigger] fl.subrange(0, k + 1)[i].0 <= u && u
                                    <= fl.subrange(0, k + 1)[i].1;
                            if i < k {
                                assert(fl.subrange(0, k as int)[i] == fl.subrange(0, k + 1)[i]);
                                assert(in_ranges(fl.subrange(0, k as int), u));
                                assert(in_ranges(before, u));
                                let j = choose|j: int|
                                    0 <= j < before.len() && #[trigger] before[j].0 <= u && u
                                        <= before[j].1;
                                if j < m {
                                    assert(after[j] == before[j]);
                                } else {
                                    assert(after[m].0 <= u && u <= after[m].1);
                                }
                            } else {
                                assert(after[m].0 <= u && u <= after[m].1);
                            }
                        }
                    }
                }
            } else {
                merged.push(current);
                current = next;
                proof {
                    let after = merged@.push(current);
                    assert(after =~= before.push(next));
                    let m0 = before.len() - 1;
                    assert(fl[k as int] == next);
                    assert(fl[k as int].0 <= fl[k as int].1);
                    assert(before[m0].1 < next.0);
                    assert(ranges_ok(after, self.size as nat)) by {
                        assert forall|a: int, b: int| 0 <= a < b < after.len() implies #[trigger] after[a].1
                            < #[trigger] after[b].0 by {
                            if b < before.len() {
                                assert(after[a] == before[a] && after[b] == before[b]);
                            } else {
                                assert(after[a] == before[a]);
                                if a < m0 {
                                    assert(before[a].1 < before[m0].0);
                                    assert(before[m0].0 <= before[m0].1);
                                }
                            }
                        }
                        assert forall|a: int| 0 <= a < after.len() implies (#[trigger] after[a]).0
                            <= after[a].1 && after[a].1 < self.size by {
                            if a < before.len() {
                                assert(after[a] == before[a]);
                            }
                        }
                    }
                    assert forall|u: int| #[trigger] in_ranges(after, u) == in_ranges(
                        fl.subrange(0, k + 1),
                        u,
                    ) by {
                        let m = before.len() as int;
                        if in_ranges(after, u) {
                            let j = choose|j: int|
                                0 <= j < after.len() && #[trigger] after[j].0 <= u && u <= after[j].1;
                            if j < m {
                                assert(after[j] == before[j]);
                                assert(in_ranges(before, u));
                                let i = choose|i: int|
                                    0 <= i < k && #[trigger] fl.subrange(0, k as int)[i].0 <= u && u
                                        <= fl.subrange(0, k as int)[i].1;
                                assert(fl.subrange(0, k + 1)[i] == fl.subrange(0, k as int)[i]);
                            } else {
                                assert(fl.subrange(0, k + 1)[k as int] == next);
                            }
                        }
                        if in_ranges(fl.subrange(0, k + 1), u) {
                            let i = choose|i: int|
                                0 <= i < k + 1 && #[trigger] fl.subrange(0, k + 1)[i].0 <= u && u
                                    <= fl.subrange(0, k + 1)[i].1;
                            if i < k {
                                assert(fl.subrange(0, k as int)[i] == fl.subrange(0, k + 1)[i]);
                                assert(in_ranges(fl.subrange(0, k as int), u));
                                assert(in_ranges(before, u));
                                let j = choose|j: int|
                                    0 <= j < before.len() && #[trigger] before[j].0 <= u && u
                                        <= before[j].1;
                                assert(after[j] == before[j]);
                            } else {
                                assert(fl.subrange(0, k + 1)[k as int] == next);
                                assert(after[m] == next);
                                assert(after[m].0 <= u && u <= after[m].1);
                            }
                        }
                    }
                }
            }
            k = k + 1;
        }
        merged.push(current);
        proof {
            assert(fl.subrange(0, n as int) =~= fl);
        }
        self.free_list = merged;
        proof {
            assert forall|u: int|
                0 <= u < self.capacity() && #[trigger] self.is_free(u) implies is_vacant(
                self.units()[u].state,
            ) by {
                assert(old(self).is_free(u));
            }
        }
    }
}

/// The free-list and the allocated and leaked blocks partition the address
/// space: every unit is either in exactly one free range, or belongs to an
/// allocated or leaked block, never both; and the free ranges are sorted and
/// pairwise disjoint.
pub proof fn lemma_partition(a: &HeapAllocator, u: int)
    requires
        a.partitioned(),
        0 <= u < a.capacity(),
    ensures
        a.is_free(u) != (a.units()[u].state == HeapBlockState::Allocated || a.units()[u].state
            == HeapBlockState::Leaked),
        forall|k: int, l: int|
            0 <= k < l < a.free_ranges().len() ==> #[trigger] a.free_ranges()[k].1
                < #[trigger] a.free_ranges()[l].0,
        forall|k: int, l: int|
            0 <= k < a.free_ranges().len() && 0 <= l < a.free_ranges().len() && (
            #[trigger] a.free_ranges()[k]).0 <= u <= a.free_ranges()[k].1 && (
            #[trigger] a.free_ranges()[l]).0 <= u <= a.free_ranges()[l].1 ==> k == l,
{
    let fl = a.free_ranges();
    assert forall|k: int, l: int|
        0 <= k < fl.len() && 0 <= l < fl.len() && (#[trigger] fl[k]).0 <= u <= fl[k].1 && (
        #[trigger] fl[l]).0 <= u <= fl[l].1 implies k == l by {
        if k < l {
            assert(fl[k].1 < fl[l].0);
        } else if l < k {
            assert(fl[l].1 < fl[k].0);
        }
    }
}

/// A leaked unit is never handed out again: the units an allocation hands
/// out were free before it, or new, and a leaked unit is neither.
pub proof fn lemma_leaked_not_reallocated(before: &HeapAllocator, addr: int, n: int, u: int)
    requires
        before.wf(),
        0 <= u < before.capacity(),
        before.units()[u].state == HeapBlockState::Leaked,
        forall|v: int| addr <= v < addr + n ==> v >= before.capacity() || #[trigger] before.is_free(v),
    ensures
        !(addr <= u < addr + n),
{
    if addr <= u < addr + n {
        assert(before.is_free(u));
    }

}

} // verus!
