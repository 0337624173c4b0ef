//! The allocator of the kernel heap: blocks of fixed sizes, kept in one free list
//! for each size, over a region from which fresh memory is carved.
use vstd::prelude::*;
use crate::bytes::is_power_of_two;

verus! {

/// Number of block sizes.
pub const CLASSES: usize = 9;

/// The size of the blocks of class `class`: 8 bytes for class 0, and twice the
/// size of the class before for every other, up to 2048.
pub open spec fn spec_block_size(class: int) -> int
    decreases class,
{
    if class <= 0 {
        8
    } else {
        2 * spec_block_size(class - 1)
    }
}

/// The size of the blocks of class `class`.
pub fn block_size(class: usize) -> (r: u64)
    requires
        class < CLASSES,
    ensures
        r == spec_block_size(class as int),
        8 <= r <= 2048,
{
    proof {
        reveal_with_fuel(spec_block_size, 10);
    }
    if class == 0 {
        8
    } else if class == 1 {
        16
    } else if class == 2 {
        32
    } else if class == 3 {
        64
    } else if class == 4 {
        128
    } else if class == 5 {
        256
    } else if class == 6 {
        512
    } else if class == 7 {
        1024
    } else {
        2048
    }
}

/// The class of a request: the lowest whose blocks are at least as large as the
/// size and as the alignment asked for; `None` where no class has such blocks.
pub open spec fn spec_list_index(size: u64, align: u64, from: int) -> Option<usize>
    decreases CLASSES - from,
{
    if from < 0 || from >= CLASSES {
        None
    } else if spec_block_size(from) >= size && spec_block_size(from) >= align {
        Some(from as usize)
    } else {
        spec_list_index(size, align, from + 1)
    }
}

/// The class of a request.
pub fn list_index(size: u64, align: u64) -> (r: Option<usize>)
    ensures
        r == spec_list_index(size, align, 0),
        r is Some ==> r.unwrap() < CLASSES && spec_block_size(r.unwrap() as int) >= size
            && spec_block_size(r.unwrap() as int) >= align,
        r is None ==> size > 2048 || align > 2048,
{
    let required = if size > align {
        size
    } else {
        align
    };
    let mut i: usize = 0;
    while i < CLASSES
        invariant
            i <= CLASSES,
            required == if size > align {
                size
            } else {
                align
            },
            spec_list_index(size, align, 0) == spec_list_index(size, align, i as int),
            i > 0 ==> spec_block_size(i - 1) < required,
        decreases CLASSES - i,
    {
        if block_size(i) >= required {
            return Some(i);
        }
        i += 1;
    }
    proof {
        reveal_with_fuel(spec_block_size, 10);
    }
    None
}

/// Whether the `s` bytes from `a` on and the `t` bytes from `b` on share no byte.
pub open spec fn spec_apart(a: u64, s: int, b: u64, t: int) -> bool {
    a + s <= b || b + t <= a
}

/// The allocator as plain values.
pub struct AllocView {
    /// The free blocks of each class; the last of a list is handed out first.
    pub lists: Seq<Seq<u64>>,
    pub heap_start: u64,
    pub heap_end: u64,
    /// Where the memory that was never handed out begins.
    pub next: u64,
    /// The blocks that are handed out, by their addresses, with their sizes.
    pub live: Map<u64, u64>,
}

impl AllocView {
    /// The free block `a` of class `i`.
    pub open spec fn spec_free(self, i: int, a: int) -> u64 {
        self.lists[i][a]
    }

    /// Whether `(i, a)` names a free block.
    pub open spec fn spec_is_free(self, i: int, a: int) -> bool {
        0 <= i < self.lists.len() && 0 <= a < self.lists[i].len()
    }

    /// Every block, free or handed out, lies in the part of the heap that was
    /// carved, no two blocks share a byte, and every block of the size of a class
    /// begins at a multiple of that size.
    pub open spec fn wf(self) -> bool {
        &&& self.lists.len() == CLASSES
        &&& self.heap_start <= self.next <= self.heap_end
        &&& forall|i: int, a: int|
            self.spec_is_free(i, a) ==> self.heap_start <= #[trigger] self.spec_free(i, a)
                && self.spec_free(i, a) + spec_block_size(i) <= self.next
        &&& forall|p: u64| #[trigger]
            self.live.contains_key(p) ==> self.heap_start <= p && p + self.live[p] <= self.next
                && self.live[p] >= 1
        &&& forall|i: int, a: int, j: int, b: int|
            self.spec_is_free(i, a) && self.spec_is_free(j, b) && (i != j || a != b) ==> spec_apart(
                #[trigger] self.spec_free(i, a),
                spec_block_size(i),
                #[trigger] self.spec_free(j, b),
                spec_block_size(j),
            )
        &&& forall|p: u64, q: u64|
            self.live.contains_key(p) && self.live.contains_key(q) && p != q ==> spec_apart(
                p,
                #[trigger] self.live[p] as int,
                q,
                #[trigger] self.live[q] as int,
            )
        &&& forall|p: u64, i: int, a: int|
            self.live.contains_key(p) && self.spec_is_free(i, a) ==> spec_apart(
                p,
                #[trigger] self.live[p] as int,
                #[trigger] self.spec_free(i, a),
                spec_block_size(i),
            )
        &&& forall|i: int, a: int|
            self.spec_is_free(i, a) ==> #[trigger] self.spec_free(i, a) % (spec_block_size(
                i,
            ) as u64) == 0
        &&& forall|p: u64, i: int|
            self.live.contains_key(p) && 0 <= i < CLASSES && #[trigger] self.live[p]
                == #[trigger] spec_block_size(i) ==> p % (spec_block_size(i) as u64) == 0
    }

    /// The first address from `next` on that is a multiple of `align`.
    pub open spec fn spec_aligned_next(self, align: u64) -> int {
        if self.next % align == 0 {
            self.next as int
        } else {
            self.next + (align - self.next % align)
        }
    }

    /// Whether `size` bytes at alignment `align` can be carved from the memory
    /// that was never handed out.
    pub open spec fn spec_can_carve(self, size: u64, align: u64) -> bool {
        self.spec_aligned_next(align) + size <= self.heap_end
    }

    /// The number of bytes that a request is granted: the block size of its class,
    /// or what it asked for where it has no class.
    pub open spec fn spec_granted(size: u64, align: u64) -> u64 {
        match spec_list_index(size, align, 0) {
            Some(i) => spec_block_size(i as int) as u64,
            None => size,
        }
    }

    /// The allocator after `size` bytes at alignment `align` were carved, and where
    /// they begin.
    pub open spec fn spec_carve(self, size: u64, align: u64) -> (AllocView, Option<u64>) {
        if self.spec_can_carve(size, align) {
            let start = self.spec_aligned_next(align) as u64;
            (
                AllocView {
                    next: (start + size) as u64,
                    live: self.live.insert(start, size),
                    ..self
                },
                Some(start),
            )
        } else {
            (self, None)
        }
    }

    /// The allocator after a request for `size` bytes at alignment `align`, and
    /// the address it was given; `None` where the heap is used up.
    ///
    /// A request with a class takes the block that was freed last in its class;
    /// where none is free, a block of the class's size is carved, at that size as
    /// its alignment. A request without a class is carved as it stands.
    pub open spec fn spec_alloc(self, size: u64, align: u64) -> (AllocView, Option<u64>) {
        match spec_list_index(size, align, 0) {
            Some(i) => {
                let list = self.lists[i as int];
                if list.len() > 0 {
                    (
                        AllocView {
                            lists: self.lists.update(i as int, list.drop_last()),
                            live: self.live.insert(list.last(), spec_block_size(i as int) as u64),
                            ..self
                        },
                        Some(list.last()),
                    )
                } else {
                    self.spec_carve(
                        spec_block_size(i as int) as u64,
                        spec_block_size(i as int) as u64,
                    )
                }
            },
            None => self.spec_carve(size, align),
        }
    }

    /// The allocator after the block at `ptr`, handed out for `size` bytes at
    /// alignment `align`, was given back: a block of a class becomes the first to
    /// be handed out again in its class; memory without a class is not used again.
    pub open spec fn spec_dealloc(self, ptr: u64, size: u64, align: u64) -> AllocView {
        match spec_list_index(size, align, 0) {
            Some(i) => AllocView {
                lists: self.lists.update(i as int, self.lists[i as int].push(ptr)),
                live: self.live.remove(ptr),
                ..self
            },
            None => AllocView { live: self.live.remove(ptr), ..self },
        }
    }
}

/// The class of a request is one of the nine, and its blocks hold the request.
pub proof fn lemma_list_index(size: u64, align: u64, from: int)
    requires
        0 <= from <= CLASSES,
    ensures
        match spec_list_index(size, align, from) {
            Some(i) => from <= i < CLASSES && spec_block_size(i as int) >= size && spec_block_size(
                i as int,
            ) >= align,
            None => true,
        },
        forall|i: int| 0 <= i < CLASSES ==> 8 <= #[trigger] spec_block_size(i) <= 2048,
    decreases CLASSES - from,
{
    reveal_with_fuel(spec_block_size, 10);
    if from < CLASSES && !(spec_block_size(from) >= size && spec_block_size(from) >= align) {
        lemma_list_index(size, align, from + 1);
    }
}

/// A request leaves a well-formed allocator well formed, and the block it is
/// given shares no byte with a block that is handed out or free: it lies in the
/// heap, holds what was asked for, and is recorded as handed out.
pub proof fn lemma_alloc(v: AllocView, size: u64, align: u64)
    requires
        v.wf(),
        size >= 1,
        is_power_of_two(align),
    ensures
        v.spec_alloc(size, align).0.wf(),
        match v.spec_alloc(size, align).1 {
            Some(p) => {
                let w = v.spec_alloc(size, align).0;
                &&& !v.live.contains_key(p)
                &&& w.live == v.live.insert(p, AllocView::spec_granted(size, align))
                &&& AllocView::spec_granted(size, align) >= size
                &&& v.heap_start <= p
                &&& p + AllocView::spec_granted(size, align) <= v.heap_end
                &&& p % align == 0
                &&& spec_list_index(size, align, 0) is Some ==> p % AllocView::spec_granted(
                    size,
                    align,
                ) == 0
            },
            None => v.spec_alloc(size, align).0 == v,
        },
{
    lemma_list_index(size, align, 0);
    lemma_block_sizes();
    let w = v.spec_alloc(size, align).0;
    match spec_list_index(size, align, 0) {
        Some(i) => {
            let list = v.lists[i as int];
            let block = spec_block_size(i as int) as u64;
            if list.len() > 0 {
                let p = list.last();
                let last = list.len() - 1;
                assert(v.spec_is_free(i as int, last));
                assert(p == v.spec_free(i as int, last));
                assert(p % block == 0);
                lemma_aligned_to_less(p, align, block);
                assert forall|j: int, b: int| w.spec_is_free(j, b) implies #[trigger] w.spec_free(
                    j,
                    b,
                ) % (spec_block_size(j) as u64) == 0 by {
                    assert(v.spec_is_free(j, b) && w.spec_free(j, b) == v.spec_free(j, b));
                }
                assert forall|q: u64, j: int|
                    w.live.contains_key(q) && 0 <= j < CLASSES && #[trigger] w.live[q]
                        == #[trigger] spec_block_size(j) implies q % (spec_block_size(j) as u64)
                    == 0 by {
                    if q == p {
                        lemma_block_size_is_class(i as int, j);
                    }
                }
                assert forall|j: int, b: int| w.spec_is_free(j, b) implies v.spec_is_free(j, b)
                    && #[trigger] w.spec_free(j, b) == v.spec_free(j, b) && (j != i || b != last) by {}
                if v.live.contains_key(p) {
                    assert(spec_apart(
                        p,
                        v.live[p] as int,
                        v.spec_free(i as int, last),
                        spec_block_size(i as int),
                    ));
                }
                assert forall|q: u64, r: u64|
                    w.live.contains_key(q) && w.live.contains_key(r) && q != r implies spec_apart(
                    q,
                    #[trigger] w.live[q] as int,
                    r,
                    #[trigger] w.live[r] as int,
                ) by {
                    if q == p {
                        assert(spec_apart(
                            r,
                            v.live[r] as int,
                            v.spec_free(i as int, last),
                            spec_block_size(i as int),
                        ));
                    } else if r == p {
                        assert(spec_apart(
                            q,
                            v.live[q] as int,
                            v.spec_free(i as int, last),
                            spec_block_size(i as int),
                        ));
                    }
                }
                assert forall|q: u64, j: int, b: int|
                    w.live.contains_key(q) && w.spec_is_free(j, b) implies spec_apart(
                    q,
                    #[trigger] w.live[q] as int,
                    #[trigger] w.spec_free(j, b),
                    spec_block_size(j),
                ) by {
                    assert(w.spec_free(j, b) == v.spec_free(j, b));
                    if q == p {
                        assert(spec_apart(
                            v.spec_free(i as int, last),
                            spec_block_size(i as int),
                            v.spec_free(j, b),
                            spec_block_size(j),
                        ));
                    }
                }
                assert forall|j: int, a: int, k: int, b: int|
                    w.spec_is_free(j, a) && w.spec_is_free(k, b) && (j != k || a != b) implies spec_apart(
                    #[trigger] w.spec_free(j, a),
                    spec_block_size(j),
                    #[trigger] w.spec_free(k, b),
                    spec_block_size(k),
                ) by {
                    assert(w.spec_free(j, a) == v.spec_free(j, a));
                    assert(w.spec_free(k, b) == v.spec_free(k, b));
                }
            } else {
                lemma_carve(v, block, block);
                if w != v {
                    lemma_aligned_to_less(v.spec_alloc(size, align).1.unwrap(), align, block);
                }
            }
        },
        None => {
            lemma_carve(v, size, align);
        },
    }
}

/// The block sizes are the powers of two from 8 to 2048.
pub proof fn lemma_block_sizes()
    ensures
        spec_block_size(0) == 8,
        spec_block_size(1) == 16,
        spec_block_size(2) == 32,
        spec_block_size(3) == 64,
        spec_block_size(4) == 128,
        spec_block_size(5) == 256,
        spec_block_size(6) == 512,
        spec_block_size(7) == 1024,
        spec_block_size(8) == 2048,
        forall|i: int| 0 <= i < CLASSES ==> is_power_of_two(#[trigger] spec_block_size(i) as u64),
{
    reveal_with_fuel(spec_block_size, 10);
    assert(is_power_of_two(8) && is_power_of_two(16) && is_power_of_two(32) && is_power_of_two(64)
        && is_power_of_two(128) && is_power_of_two(256) && is_power_of_two(512) && is_power_of_two(
        1024,
    ) && is_power_of_two(2048)) by (bit_vector);
}

/// Two classes with blocks of the same size are the same class.
pub proof fn lemma_block_size_is_class(i: int, j: int)
    requires
        0 <= i < CLASSES,
        0 <= j < CLASSES,
        spec_block_size(i) == spec_block_size(j),
    ensures
        i == j,
{
    lemma_block_sizes();
}

/// A power of two up to 2048 is one of twelve numbers.
pub proof fn lemma_small_powers(align: u64)
    requires
        is_power_of_two(align),
        align <= 2048,
    ensures
        align == 1 || align == 2 || align == 4 || align == 8 || align == 16 || align == 32 || align
            == 64 || align == 128 || align == 256 || align == 512 || align == 1024 || align == 2048,
{
    assert(align == 1 || align == 2 || align == 4 || align == 8 || align == 16 || align == 32
        || align == 64 || align == 128 || align == 256 || align == 512 || align == 1024 || align
        == 2048) by (bit_vector)
        requires
            align != 0 && align & ((align - 1) as u64) == 0,
            align <= 2048,
    ;
}

/// What begins at a multiple of a block size begins at a multiple of every power
/// of two up to that size.
pub proof fn lemma_aligned_to_less(p: u64, align: u64, block: u64)
    requires
        is_power_of_two(align),
        align <= block,
        p % block == 0,
        block == 8 || block == 16 || block == 32 || block == 64 || block == 128 || block == 256
            || block == 512 || block == 1024 || block == 2048,
    ensures
        p % align == 0,
{
    lemma_small_powers(align);
    if block >= 2048 {
        assert(p % 1024 == 0);
    }
    if block >= 1024 {
        assert(p % 512 == 0);
    }
    if block >= 512 {
        assert(p % 256 == 0);
    }
    if block >= 256 {
        assert(p % 128 == 0);
    }
    if block >= 128 {
        assert(p % 64 == 0);
    }
    if block >= 64 {
        assert(p % 32 == 0);
    }
    if block >= 32 {
        assert(p % 16 == 0);
    }
    if block >= 16 {
        assert(p % 8 == 0);
    }
    assert(p % 4 == 0);
    assert(p % 2 == 0);
}

/// What begins at a multiple of a power of two above 2048 begins at a multiple
/// of every block size.
pub proof fn lemma_aligned_to_more(p: u64, align: u64, i: int)
    requires
        is_power_of_two(align),
        align > 2048,
        p % align == 0,
        0 <= i < CLASSES,
    ensures
        p % (spec_block_size(i) as u64) == 0,
{
    lemma_block_sizes();
    assert(p % 2048 == 0) by (bit_vector)
        requires
            align != 0 && align & ((align - 1) as u64) == 0,
            align > 2048,
            p % align == 0,
    ;
    lemma_aligned_to_less(p, spec_block_size(i) as u64, 2048);
}

/// Carving leaves a well-formed allocator well formed; what is carved begins at
/// a multiple of the alignment, behind every block there is.
pub proof fn lemma_carve(v: AllocView, size: u64, align: u64)
    requires
        v.wf(),
        size >= 1,
        is_power_of_two(align),
        spec_list_index(size, align, 0) is None || (exists|i: int|
            0 <= i < CLASSES && size == spec_block_size(i) && align == size),
    ensures
        v.spec_carve(size, align).0.wf(),
        match v.spec_carve(size, align).1 {
            Some(p) => !v.live.contains_key(p) && p % align == 0 && v.next <= p && p + size
                <= v.heap_end && v.spec_carve(size, align).0.live == v.live.insert(p, size),
            None => v.spec_carve(size, align).0 == v,
        },
{
    if v.spec_can_carve(size, align) {
        let start = v.spec_aligned_next(align) as u64;
        let w = v.spec_carve(size, align).0;
        assert(align >= 1);
        assert(start % align == 0) by (nonlinear_arith)
            requires
                align >= 1,
                start == if v.next % align == 0 {
                    v.next as int
                } else {
                    v.next + (align - v.next % align)
                },
        ;
        assert(v.next <= start) by (nonlinear_arith)
            requires
                align >= 1,
                start == if v.next % align == 0 {
                    v.next as int
                } else {
                    v.next + (align - v.next % align)
                },
        ;
        assert forall|j: int, b: int| w.spec_is_free(j, b) implies v.spec_is_free(j, b)
            && #[trigger] w.spec_free(j, b) == v.spec_free(j, b) by {}
        assert forall|j: int, a: int, k: int, b: int|
            w.spec_is_free(j, a) && w.spec_is_free(k, b) && (j != k || a != b) implies spec_apart(
            #[trigger] w.spec_free(j, a),
            spec_block_size(j),
            #[trigger] w.spec_free(k, b),
            spec_block_size(k),
        ) by {
            assert(w.spec_free(j, a) == v.spec_free(j, a));
            assert(w.spec_free(k, b) == v.spec_free(k, b));
        }
        assert forall|q: u64, j: int, b: int|
            w.live.contains_key(q) && w.spec_is_free(j, b) implies spec_apart(
            q,
            #[trigger] w.live[q] as int,
            #[trigger] w.spec_free(j, b),
            spec_block_size(j),
        ) by {
            assert(w.spec_free(j, b) == v.spec_free(j, b));
        }
        assert forall|j: int, b: int| w.spec_is_free(j, b) implies #[trigger] w.spec_free(j, b) % (
        spec_block_size(j) as u64) == 0 by {
            assert(v.spec_is_free(j, b) && w.spec_free(j, b) == v.spec_free(j, b));
        }
        lemma_list_index(size, align, 0);
        lemma_block_sizes();
        assert forall|q: u64, j: int|
            w.live.contains_key(q) && 0 <= j < CLASSES && #[trigger] w.live[q]
                == #[trigger] spec_block_size(j) implies q % (spec_block_size(j) as u64) == 0 by {
            if q == start {
                if align > 2048 {
                    lemma_aligned_to_more(start, align, j);
                } else if spec_list_index(size, align, 0) is None {
                    lemma_no_class(size, align, 0);
                } else {
                    let i = choose|i: int|
                        0 <= i < CLASSES && size == spec_block_size(i) && align == size;
                    lemma_block_size_is_class(i, j);
                }
            }
        }
    }
}

/// A request without a class asks for more than 2048 bytes or for an alignment
/// above 2048.
pub proof fn lemma_no_class(size: u64, align: u64, from: int)
    requires
        0 <= from < CLASSES,
        spec_list_index(size, align, from) is None,
    ensures
        size > 2048 || align > 2048,
    decreases CLASSES - from,
{
    lemma_block_sizes();
    if from + 1 < CLASSES {
        lemma_no_class(size, align, from + 1);
    }
}

/// Giving a block back leaves a well-formed allocator well formed.
pub proof fn lemma_dealloc(v: AllocView, ptr: u64, size: u64, align: u64)
    requires
        v.wf(),
        v.live.contains_key(ptr),
        v.live[ptr] == AllocView::spec_granted(size, align),
    ensures
        v.spec_dealloc(ptr, size, align).wf(),
        v.spec_dealloc(ptr, size, align).live == v.live.remove(ptr),
{
    lemma_list_index(size, align, 0);
    let w = v.spec_dealloc(ptr, size, align);
    assert forall|q: u64, j: int|
        w.live.contains_key(q) && 0 <= j < CLASSES && #[trigger] w.live[q]
            == #[trigger] spec_block_size(j) implies q % (spec_block_size(j) as u64) == 0 by {
        assert(v.live.contains_key(q) && v.live[q] == w.live[q]);
    }
    assert forall|j: int, b: int| w.spec_is_free(j, b) implies #[trigger] w.spec_free(j, b) % (
    spec_block_size(j) as u64) == 0 by {
        match spec_list_index(size, align, 0) {
            Some(i) => {
                if j == i && b == v.lists[i as int].len() {
                    assert(w.spec_free(j, b) == ptr);
                    assert(v.live[ptr] == spec_block_size(i as int));
                } else {
                    assert(v.spec_is_free(j, b) && w.spec_free(j, b) == v.spec_free(j, b));
                }
            },
            None => {
                assert(v.spec_is_free(j, b) && w.spec_free(j, b) == v.spec_free(j, b));
            },
        }
    }
    match spec_list_index(size, align, 0) {
        Some(i) => {
            let top = v.lists[i as int].len() as int;
            assert forall|j: int, b: int| w.spec_is_free(j, b) implies (if j == i && b == top {
                #[trigger] w.spec_free(j, b) == ptr
            } else {
                v.spec_is_free(j, b) && w.spec_free(j, b) == v.spec_free(j, b)
            }) by {}
            assert forall|j: int, a: int| w.spec_is_free(j, a) implies v.heap_start
                <= #[trigger] w.spec_free(j, a) && w.spec_free(j, a) + spec_block_size(j)
                <= w.next by {
                if !(j == i && a == top) {
                    assert(w.spec_free(j, a) == v.spec_free(j, a));
                }
            }
            assert forall|j: int, a: int, k: int, b: int|
                w.spec_is_free(j, a) && w.spec_is_free(k, b) && (j != k || a != b) implies spec_apart(
                #[trigger] w.spec_free(j, a),
                spec_block_size(j),
                #[trigger] w.spec_free(k, b),
                spec_block_size(k),
            ) by {
                if j == i && a == top {
                    assert(w.spec_free(k, b) == v.spec_free(k, b));
                    assert(spec_apart(
                        ptr,
                        v.live[ptr] as int,
                        v.spec_free(k, b),
                        spec_block_size(k),
                    ));
                } else if k == i && b == top {
                    assert(w.spec_free(j, a) == v.spec_free(j, a));
                    assert(spec_apart(
                        ptr,
                        v.live[ptr] as int,
                        v.spec_free(j, a),
                        spec_block_size(j),
                    ));
                } else {
                    assert(w.spec_free(j, a) == v.spec_free(j, a));
                    assert(w.spec_free(k, b) == v.spec_free(k, b));
                }
            }
            assert forall|q: u64, j: int, b: int|
                w.live.contains_key(q) && w.spec_is_free(j, b) implies spec_apart(
                q,
                #[trigger] w.live[q] as int,
                #[trigger] w.spec_free(j, b),
                spec_block_size(j),
            ) by {
                if j == i && b == top {
                    assert(spec_apart(q, v.live[q] as int, ptr, v.live[ptr] as int));
                } else {
                    assert(w.spec_free(j, b) == v.spec_free(j, b));
                }
            }
        },
        None => {
            assert forall|j: int, b: int| w.spec_is_free(j, b) implies v.spec_is_free(j, b)
                && #[trigger] w.spec_free(j, b) == v.spec_free(j, b) by {}
            assert forall|j: int, a: int, k: int, b: int|
                w.spec_is_free(j, a) && w.spec_is_free(k, b) && (j != k || a != b) implies spec_apart(
                #[trigger] w.spec_free(j, a),
                spec_block_size(j),
                #[trigger] w.spec_free(k, b),
                spec_block_size(k),
            ) by {
                assert(w.spec_free(j, a) == v.spec_free(j, a));
                assert(w.spec_free(k, b) == v.spec_free(k, b));
            }
            assert forall|q: u64, j: int, b: int|
                w.live.contains_key(q) && w.spec_is_free(j, b) implies spec_apart(
                q,
                #[trigger] w.live[q] as int,
                #[trigger] w.spec_free(j, b),
                spec_block_size(j),
            ) by {
                assert(w.spec_free(j, b) == v.spec_free(j, b));
            }
        },
    }
}

/// No leak: a block that is requested and given back leaves the blocks that are
/// handed out as they were. Where the request has a class, the block is then the
/// first to be handed out again in its class, so that any number of such pairs,
/// one after another, carve at most one block from the heap.
pub proof fn lemma_alloc_dealloc(v: AllocView, size: u64, align: u64)
    requires
        v.wf(),
        size >= 1,
        is_power_of_two(align),
        v.spec_alloc(size, align).1 is Some,
    ensures
        ({
            let w = v.spec_alloc(size, align).0;
            let p = v.spec_alloc(size, align).1.unwrap();
            let x = w.spec_dealloc(p, size, align);
            &&& x.wf()
            &&& x.live == v.live
            &&& spec_list_index(size, align, 0) is Some ==> x.spec_alloc(size, align).1 == Some(p)
                && x.spec_alloc(size, align).0.next == x.next && x.spec_alloc(size, align).0 == w
        }),
{
    lemma_list_index(size, align, 0);
    lemma_alloc(v, size, align);
    let w = v.spec_alloc(size, align).0;
    let p = v.spec_alloc(size, align).1.unwrap();
    lemma_dealloc(w, p, size, align);
    let x = w.spec_dealloc(p, size, align);
    assert(x.live =~= v.live);
    match spec_list_index(size, align, 0) {
        Some(i) => {
            let list = x.lists[i as int];
            assert(list == w.lists[i as int].push(p));
            assert(list.drop_last() =~= w.lists[i as int]);
            assert(x.lists.update(i as int, list.drop_last()) =~= w.lists);
            assert(x.live.insert(p, spec_block_size(i as int) as u64) =~= w.live);
        },
        None => {},
    }
}

/// The allocator of the kernel heap.
pub struct FixedBlockAlloc {
    /// The free blocks of each class; the last of a list is handed out first.
    pub lists: Vec<Vec<u64>>,
    pub heap_start: u64,
    pub heap_end: u64,
    /// Where the memory that was never handed out begins.
    pub next: u64,
    /// The blocks that are handed out, by their addresses, with their sizes.
    pub live: Ghost<Map<u64, u64>>,
}

impl FixedBlockAlloc {
    /// The allocator as plain values.
    pub open spec fn model(self) -> AllocView {
        AllocView {
            lists: self.lists@.map_values(|l: Vec<u64>| l@),
            heap_start: self.heap_start,
            heap_end: self.heap_end,
            next: self.next,
            live: self.live@,
        }
    }

    /// The allocator is well formed.
    pub open spec fn wf(self) -> bool {
        self.model().wf()
    }

    /// An allocator without a heap: every request fails until `init` gives it one.
    pub fn new() -> (r: FixedBlockAlloc)
        ensures
            r.wf(),
            r.model() == (AllocView {
                lists: Seq::new(CLASSES as nat, |i: int| Seq::<u64>::empty()),
                heap_start: 0,
                heap_end: 0,
                next: 0,
                live: Map::empty(),
            }),
    {
        let mut lists: Vec<Vec<u64>> = Vec::new();
        let mut i: usize = 0;
        while i < CLASSES
            invariant
                i <= CLASSES,
                lists@.len() == i,
                forall|j: int| 0 <= j < i ==> (#[trigger] lists@[j])@ == Seq::<u64>::empty(),
            decreases CLASSES - i,
        {
            lists.push(Vec::new());
            i += 1;
        }
        let r = FixedBlockAlloc {
            lists,
            heap_start: 0,
            heap_end: 0,
            next: 0,
            live: Ghost(Map::empty()),
        };
        assert(r.model().lists =~= Seq::new(CLASSES as nat, |i: int| Seq::<u64>::empty()));
        r
    }

    /// Gives the allocator its heap: the `heap_size` bytes from `heap_start` on,
    /// none of them handed out. What the allocator held before is forgotten.
    pub fn init(&mut self, heap_start: u64, heap_size: u64)
        requires
            heap_start + heap_size <= u64::MAX,
        ensures
            final(self).wf(),
            final(self).model() == (AllocView {
                lists: Seq::new(CLASSES as nat, |i: int| Seq::<u64>::empty()),
                heap_start,
                heap_end: (heap_start + heap_size) as u64,
                next: heap_start,
                live: Map::empty(),
            }),
    {
        let fresh = FixedBlockAlloc::new();
        self.lists = fresh.lists;
        self.heap_start = heap_start;
        self.heap_end = heap_start + heap_size;
        self.next = heap_start;
        self.live = Ghost(Map::empty());
    }

    /// Carves `size` bytes at alignment `align` from the memory that was never
    /// handed out.
    fn carve(&mut self, size: u64, align: u64) -> (r: Option<u64>)
        requires
            old(self).wf(),
            size >= 1,
            align >= 1,
        ensures
            final(self).model() == old(self).model().spec_carve(size, align).0,
            r == old(self).model().spec_carve(size, align).1,
    {
        let rest = self.next % align;
        let start = if rest == 0 {
            self.next
        } else {
            match self.next.checked_add(align - rest) {
                Some(s) => s,
                None => {
                    return None;
                },
            }
        };
        if start > self.heap_end || size > self.heap_end - start {
            return None;
        }
        self.next = start + size;
        self.live = Ghost(self.live@.insert(start, size));
        Some(start)
    }

    /// Hands out memory for `size` bytes at alignment `align`, a power of two: see
    /// `AllocView::spec_alloc`. `None` where the heap is used up.
    ///
    /// The block that is handed out begins at a multiple of the alignment, lies in
    /// the heap, and shares no byte with a block that is handed out already or
    /// free.
    pub fn allocate(&mut self, size: u64, align: u64) -> (r: Option<u64>)
        requires
            old(self).wf(),
            size >= 1,
            is_power_of_two(align),
        ensures
            final(self).wf(),
            final(self).model() == old(self).model().spec_alloc(size, align).0,
            r == old(self).model().spec_alloc(size, align).1,
            r is Some ==> r.unwrap() % align == 0 && old(self).heap_start <= r.unwrap()
                && r.unwrap() + size <= old(self).heap_end && !old(self).live@.contains_key(
                r.unwrap(),
            ),
    {
        proof {
            lemma_alloc(self.model(), size, align);
            lemma_list_index(size, align, 0);
        }
        match list_index(size, align) {
            Some(i) => {
                let ghost before = self.model();
                match self.lists[i].pop() {
                    Some(p) => {
                        self.live = Ghost(self.live@.insert(p, spec_block_size(i as int) as u64));
                        assert(self.model().lists =~= before.lists.update(
                            i as int,
                            before.lists[i as int].drop_last(),
                        ));
                        Some(p)
                    },
                    None => {
                        assert(self.model().lists =~= before.lists);
                        let size = block_size(i);
                        self.carve(size, size)
                    },
                }
            },
            None => self.carve(size, align),
        }
    }

    /// Takes back the block at `ptr` that was handed out for `size` bytes at
    /// alignment `align`: see `AllocView::spec_dealloc`.
    pub fn deallocate(&mut self, ptr: u64, size: u64, align: u64)
        requires
            old(self).wf(),
            old(self).live@.contains_key(ptr),
            old(self).live@[ptr] == AllocView::spec_granted(size, align),
        ensures
            final(self).wf(),
            final(self).model() == old(self).model().spec_dealloc(ptr, size, align),
    {
        proof {
            lemma_dealloc(self.model(), ptr, size, align);
            lemma_list_index(size, align, 0);
        }
        let ghost before = self.model();
        match list_index(size, align) {
            Some(i) => {
                self.lists[i].push(ptr);
                self.live = Ghost(self.live@.remove(ptr));
                assert(self.model().lists =~= before.lists.update(
                    i as int,
                    before.lists[i as int].push(ptr),
                ));
            },
            None => {
                self.live = Ghost(self.live@.remove(ptr));
            },
        }
    }
}

} // verus!
