//! A backing store assembled from address-windowed segments, each backed by
//! its own inner store. A lookup picks the segment with the greatest start
//! not above the address, then checks that the address falls inside that
//! segment's window; addresses outside every window read zero and absorb
//! writes. Segments are kept ordered by start, and inserting a segment at an
//! occupied start replaces the old one.

use crate::mem::Memory;
use vstd::pervasive::VecAdditionalExecFns;
use vstd::prelude::*;

verus! {

/// One window of the address space, backed by an inner store. The window
/// covers word addresses `start` to `start + size`, exclusive, and maps them
/// to inner addresses starting at zero.
pub struct PagedMemorySegment<M: Memory> {
    start: usize,
    size: usize,
    memory: M,
}

impl<M: Memory> PagedMemorySegment<M> {
    /// Where the window begins.
    pub closed spec fn seg_start(self) -> int {
        self.start as int
    }

    /// How many word addresses the window covers.
    pub closed spec fn seg_size(self) -> int {
        self.size as int
    }

    /// The inner store.
    pub closed spec fn seg_memory(self) -> M {
        self.memory
    }

    /// A segment covering `size` words from `start`, backed by `memory`.
    pub fn new(start: usize, size: usize, memory: M) -> (r: PagedMemorySegment<M>)
        ensures
            r.seg_start() == start,
            r.seg_size() == size,
            r.seg_memory() == memory,
    {
        PagedMemorySegment { start, size, memory }
    }
}

/// The position of the segment that resolves word address `a`: scanning
/// from the end of the list, the first segment whose start is not above `a`.
pub open spec fn seg_lookup<M: Memory>(segs: Seq<PagedMemorySegment<M>>, a: int) -> Option<int>
    decreases segs.len(),
{
    if segs.len() == 0 {
        None
    } else if segs[segs.len() - 1].seg_start() <= a {
        Some(segs.len() - 1)
    } else {
        seg_lookup(segs.drop_last(), a)
    }
}

/// The word a segment list holds at address `a`.
pub open spec fn segs_word_at<M: Memory>(segs: Seq<PagedMemorySegment<M>>, a: int) -> u32 {
    match seg_lookup(segs, a) {
        Some(i) => if a < segs[i].seg_start() + segs[i].seg_size() {
            segs[i].seg_memory().word_at(a - segs[i].seg_start())
        } else {
            0
        },
        None => 0,
    }
}

/// Whether a write at address `a` sticks in a segment list.
pub open spec fn segs_writable<M: Memory>(segs: Seq<PagedMemorySegment<M>>, a: int) -> bool {
    match seg_lookup(segs, a) {
        Some(i) => a < segs[i].seg_start() + segs[i].seg_size() && segs[i].seg_memory().writable(
            a - segs[i].seg_start(),
        ),
        None => false,
    }
}

/// The segment list after inserting `entry`: placed before the first later
/// start, replacing a segment whose start is equal.
pub open spec fn segs_insert<M: Memory>(
    segs: Seq<PagedMemorySegment<M>>,
    entry: PagedMemorySegment<M>,
) -> Seq<PagedMemorySegment<M>>
    decreases segs.len(),
{
    if segs.len() == 0 {
        seq![entry]
    } else if segs[segs.len() - 1].seg_start() < entry.seg_start() {
        segs.push(entry)
    } else if segs[segs.len() - 1].seg_start() == entry.seg_start() {
        segs.drop_last().push(entry)
    } else {
        segs_insert(segs.drop_last(), entry).push(segs[segs.len() - 1])
    }
}

/// The segment list after removing the segment starting at `start`, if any.
pub open spec fn segs_remove<M: Memory>(
    segs: Seq<PagedMemorySegment<M>>,
    start: int,
) -> Seq<PagedMemorySegment<M>>
    decreases segs.len(),
{
    if segs.len() == 0 {
        segs
    } else if segs[segs.len() - 1].seg_start() == start {
        segs.drop_last()
    } else {
        segs_remove(segs.drop_last(), start).push(segs[segs.len() - 1])
    }
}

/// A store assembled from address-windowed segments.
pub struct PagedMemory<M: Memory> {
    segments: Vec<PagedMemorySegment<M>>,
}

impl<M: Memory> PagedMemory<M> {
    /// The segment list, ordered by start.
    pub closed spec fn segs(self) -> Seq<PagedMemorySegment<M>> {
        self.segments@
    }

    /// Whether the segment list is strictly ordered by start.
    pub open spec fn well_formed(self) -> bool {
        forall|i: int, j: int|
            0 <= i < j < self.segs().len() ==> #[trigger] self.segs()[i].seg_start()
                < #[trigger] self.segs()[j].seg_start()
    }

    /// An empty store: every address reads zero and absorbs writes.
    pub fn new() -> (r: PagedMemory<M>)
        ensures
            r.segs() =~= Seq::<PagedMemorySegment<M>>::empty(),
            r.well_formed(),
    {
        PagedMemory { segments: Vec::new() }
    }

    /// Add a segment, replacing any segment that starts at the same address.
    #[verifier::loop_isolation(false)]
    pub fn insert_page(&mut self, entry: PagedMemorySegment<M>)
        requires
            old(self).well_formed(),
        ensures
            final(self).segs() == segs_insert(old(self).segs(), entry),
            final(self).well_formed(),
    {
        let ghost segs0 = self.segments@;
        proof {
            assert(segs0 == old(self).segs());
            assert forall|p: int, q: int| 0 <= p < q < segs0.len() implies #[trigger] segs0[p].seg_start() < #[trigger] segs0[q].seg_start() by {
                assert(old(self).segs()[p].seg_start() < old(self).segs()[q].seg_start());
            }
        }
        let mut i = self.segments.len();
        while i > 0 && entry.start <= self.segments[i - 1].start
            invariant
                i <= self.segments@.len(),
                self.segments@ == segs0,
                forall|j: int|
                    i <= j < self.segments@.len() ==> entry.seg_start()
                        <= #[trigger] self.segments@[j].seg_start(),
            decreases i,
        {
            i = i - 1;
        }
        proof {
            lemma_segs_insert_at(segs0, entry, i as int);
            assert forall|j: int| 0 <= j < i implies #[trigger] segs0[j].seg_start()
                < entry.seg_start() by {
                assert(segs0[j].seg_start() <= segs0[i - 1].seg_start());
            }
        }
        if i < self.segments.len() && entry.start == self.segments[i].start {
            self.segments.set(i, entry);
            proof {
                assert(self.segments@ =~= segs0.update(i as int, entry));
            }
        } else {
            self.segments.insert(i, entry);
        }
        proof {
            let segs1 = self.segments@;
            assert forall|p: int, q: int| 0 <= p < q < segs1.len() implies #[trigger] segs1[p].seg_start()
                < #[trigger] segs1[q].seg_start() by {
                if i < segs0.len() && segs0[i as int].seg_start() == entry.seg_start() {
                    assert(segs1[p] == if p == i as int {
                        entry
                    } else {
                        segs0[p]
                    });
                    assert(segs1[q] == if q == i as int {
                        entry
                    } else {
                        segs0[q]
                    });
                } else {
                    assert(forall|j: int|
                        i as int <= j < segs0.len() ==> entry.seg_start()
                            < #[trigger] segs0[j].seg_start());
                    assert(segs1[p] == if p < i as int {
                        segs0[p]
                    } else if p == i as int {
                        entry
                    } else {
                        segs0[p - 1]
                    });
                    assert(segs1[q] == if q < i as int {
                        segs0[q]
                    } else if q == i as int {
                        entry
                    } else {
                        segs0[q - 1]
                    });
                }
            }
        }
    }

    /// Remove the segment starting at `start`; tell whether one was there.
    #[verifier::loop_isolation(false)]
    pub fn remove_page(&mut self, start: usize) -> (r: bool)
        requires
            old(self).well_formed(),
        ensures
            final(self).segs() == segs_remove(old(self).segs(), start as int),
            final(self).well_formed(),
            r <==> exists|i: int|
                0 <= i < old(self).segs().len() && #[trigger] old(self).segs()[i].seg_start()
                    == start,
    {
        let ghost segs0 = self.segments@;
        proof {
            assert(segs0 == old(self).segs());
            assert forall|p: int, q: int| 0 <= p < q < segs0.len() implies #[trigger] segs0[p].seg_start() < #[trigger] segs0[q].seg_start() by {
                assert(old(self).segs()[p].seg_start() < old(self).segs()[q].seg_start());
            }
        }
        let mut i: usize = 0;
        while i < self.segments.len()
            invariant
                i <= self.segments@.len(),
                self.segments@ == segs0,
                forall|j: int|
                    0 <= j < i ==> #[trigger] self.segments@[j].seg_start() != start as int,
            decreases self.segments@.len() - i,
        {
            if self.segments[i].start == start {
                proof {
                    lemma_segs_remove_at(segs0, start as int, i as int);
                    assert(old(self).segs()[i as int].seg_start() == start as int);
                }
                self.segments.remove(i);
                return true;
            }
            i = i + 1;
        }
        proof {
            lemma_segs_remove_none(segs0, start as int);
            assert forall|j: int| 0 <= j < old(self).segs().len() implies #[trigger] old(
                self,
            ).segs()[j].seg_start() != start as int by {
                assert(segs0[j].seg_start() != start as int);
            }
        }
        false
    }

    /// The segment that resolves `address`, if `address` falls inside its
    /// window.
    #[verifier::loop_isolation(false)]
    pub fn get_page(&self, address: usize) -> (r: Option<&PagedMemorySegment<M>>)
        ensures
            match seg_lookup(self.segs(), address as int) {
                Some(i) => if (address as int) < self.segs()[i].seg_start() + self.segs()[i].seg_size() {
                    r is Some && *r->0 == self.segs()[i]
                } else {
                    r is None
                },
                None => r is None,
            },
    {
        proof {
            assert(self.segments@.take(self.segments@.len() as int) =~= self.segments@);
        }
        let mut i = self.segments.len();
        while i > 0
            invariant
                i <= self.segments@.len(),
                seg_lookup(self.segs(), address as int) == seg_lookup(
                    self.segments@.take(i as int),
                    address as int,
                ),
                forall|j: int|
                    0 <= j < i ==> #[trigger] self.segments@.take(i as int)[j]
                        == self.segments@[j],
            decreases i,
        {
            proof {
                assert(self.segments@.take(i as int).drop_last() =~= self.segments@.take(
                    i as int - 1,
                ));
            }
            if self.segments[i - 1].start <= address {
                let seg = &self.segments[i - 1];
                if address - seg.start < seg.size {
                    return Some(seg);
                } else {
                    return None;
                }
            }
            i = i - 1;
        }
        None
    }

    /// The position that resolves `address`, when `address` falls inside
    /// that segment's window.
    #[verifier::loop_isolation(false)]
    fn find_page_index(&self, address: usize) -> (r: Option<usize>)
        ensures
            match r {
                Some(u) => seg_lookup(self.segs(), address as int) == Some(u as int) && (address
                    as int) < self.segs()[u as int].seg_start() + self.segs()[u as int].seg_size(),
                None => match seg_lookup(self.segs(), address as int) {
                    Some(i) => !((address as int) < self.segs()[i].seg_start()
                        + self.segs()[i].seg_size()),
                    None => true,
                },
            },
    {
        proof {
            assert(self.segments@.take(self.segments@.len() as int) =~= self.segments@);
        }
        let mut i = self.segments.len();
        while i > 0
            invariant
                i <= self.segments@.len(),
                seg_lookup(self.segs(), address as int) == seg_lookup(
                    self.segments@.take(i as int),
                    address as int,
                ),
                forall|j: int|
                    0 <= j < i ==> #[trigger] self.segments@.take(i as int)[j]
                        == self.segments@[j],
            decreases i,
        {
            proof {
                assert(self.segments@.take(i as int).drop_last() =~= self.segments@.take(
                    i as int - 1,
                ));
            }
            if self.segments[i - 1].start <= address {
                let seg = &self.segments[i - 1];
                if address - seg.start < seg.size {
                    return Some(i - 1);
                } else {
                    return None;
                }
            }
            i = i - 1;
        }
        None
    }
}

/// Inserting at scan position `i` matches the recursive insertion spec:
/// replace in place where the start is already taken, else make room.
proof fn lemma_segs_insert_at<M: Memory>(
    segs: Seq<PagedMemorySegment<M>>,
    entry: PagedMemorySegment<M>,
    i: int,
)
    requires
        0 <= i <= segs.len(),
        forall|j: int, k: int|
            0 <= j < k < segs.len() ==> #[trigger] segs[j].seg_start()
                < #[trigger] segs[k].seg_start(),
        forall|j: int| i <= j < segs.len() ==> entry.seg_start() <= #[trigger] segs[j].seg_start(),
        i > 0 ==> segs[i - 1].seg_start() < entry.seg_start(),
    ensures
        segs_insert(segs, entry) == if i < segs.len() && segs[i].seg_start()
            == entry.seg_start() {
            segs.update(i, entry)
        } else {
            segs.insert(i, entry)
        },
    decreases segs.len(),
{
    if segs.len() == 0 {
        assert(segs.insert(0, entry) =~= seq![entry]);
    } else if i == segs.len() {
        assert(segs_insert(segs, entry) == segs.push(entry));
        assert(segs.insert(i, entry) =~= segs.push(entry));
    } else if i == segs.len() - 1 {
        if segs[i].seg_start() == entry.seg_start() {
            assert(segs.update(i, entry) =~= segs.drop_last().push(entry));
        } else {
            assert(segs_insert(segs, entry) == segs_insert(segs.drop_last(), entry).push(
                segs[segs.len() - 1],
            ));
            lemma_segs_insert_at(segs.drop_last(), entry, i);
            assert(segs.drop_last().insert(i, entry).push(segs[segs.len() - 1]) =~= segs.insert(
                i,
                entry,
            ));
        }
    } else {
        assert(segs[i].seg_start() < segs[segs.len() - 1].seg_start());
        lemma_segs_insert_at(segs.drop_last(), entry, i);
        if segs[i].seg_start() == entry.seg_start() {
            assert(segs.drop_last().update(i, entry).push(segs[segs.len() - 1]) =~= segs.update(
                i,
                entry,
            ));
        } else {
            assert(segs.drop_last().insert(i, entry).push(segs[segs.len() - 1]) =~= segs.insert(
                i,
                entry,
            ));
        }
    }
}

/// Removing the one position whose start matches follows the recursive
/// removal spec.
proof fn lemma_segs_remove_at<M: Memory>(segs: Seq<PagedMemorySegment<M>>, start: int, i: int)
    requires
        0 <= i < segs.len(),
        segs[i].seg_start() == start,
        forall|j: int, k: int|
            0 <= j < k < segs.len() ==> #[trigger] segs[j].seg_start()
                < #[trigger] segs[k].seg_start(),
    ensures
        segs_remove(segs, start) == segs.remove(i),
    decreases segs.len(),
{
    if i == segs.len() - 1 {
        assert(segs.remove(i) =~= segs.drop_last());
    } else {
        assert(segs[i].seg_start() < segs[segs.len() - 1].seg_start());
        lemma_segs_remove_at(segs.drop_last(), start, i);
        assert(segs.drop_last().remove(i).push(segs[segs.len() - 1]) =~= segs.remove(i));
    }
}

/// Removing a start that no segment has leaves the list unchanged.
proof fn lemma_segs_remove_none<M: Memory>(segs: Seq<PagedMemorySegment<M>>, start: int)
    requires
        forall|j: int| 0 <= j < segs.len() ==> #[trigger] segs[j].seg_start() != start,
    ensures
        segs_remove(segs, start) == segs,
    decreases segs.len(),
{
    if segs.len() > 0 {
        lemma_segs_remove_none(segs.drop_last(), start);
        assert(segs.drop_last().push(segs[segs.len() - 1]) =~= segs);
    }
}

impl<M: Memory> Memory for PagedMemory<M> {
    open spec fn word_at(&self, word_addr: int) -> u32 {
        segs_word_at(self.segs(), word_addr)
    }

    open spec fn writable(&self, word_addr: int) -> bool {
        segs_writable(self.segs(), word_addr)
    }

    fn read(&self, word_addr: usize) -> (r: u32) {
        proof {
            lemma_seg_lookup_props(self.segments@, word_addr as int);
            assert(self.segs() == self.segments@);
        }
        match self.get_page(word_addr) {
            Some(seg) => seg.memory.read(word_addr - seg.start),
            None => 0,
        }
    }

    fn write(&mut self, word_addr: usize, value: u32) {
        let ghost segs0 = self.segments@;
        proof {
            lemma_seg_lookup_props(segs0, word_addr as int);
            assert(segs0 == self.segs());
        }
        match self.find_page_index(word_addr) {
            Some(i) => {
                proof {
                    assert(seg_lookup(segs0, word_addr as int) == Some(i as int));
                    assert(segs0[i as int].seg_start() <= word_addr as int);
                }
                let start = self.segments[i].start;
                proof {
                    assert(start as int == segs0[i as int].seg_start());
                }
                let mut seg = self.segments.remove(i);
                seg.memory.write(word_addr - start, value);
                let ghost seg1 = seg;
                self.segments.insert(i, seg);
                proof {
                    let wa = word_addr as int;
                    let segs1 = self.segments@;
                    assert(segs1 =~= segs0.update(i as int, seg1));
                    assert forall|a: int|
                        #[trigger] segs_word_at(segs1, a) == if a == wa && segs_writable(
                            segs0,
                            a,
                        ) {
                            value
                        } else {
                            segs_word_at(segs0, a)
                        } by {
                        lemma_seg_lookup_same_starts(segs0, segs1, a);
                        lemma_seg_lookup_props(segs0, a);
                    }
                    assert forall|a: int|
                        #[trigger] segs_writable(segs1, a) == segs_writable(segs0, a) by {
                        lemma_seg_lookup_same_starts(segs0, segs1, a);
                        lemma_seg_lookup_props(segs0, a);
                    }
                }
            },
            None => {},
        }
    }
}

/// A successful lookup lands inside the list, at a segment that starts at
/// or before the address it resolves.
proof fn lemma_seg_lookup_props<M: Memory>(segs: Seq<PagedMemorySegment<M>>, a: int)
    ensures
        match seg_lookup(segs, a) {
            Some(i) => 0 <= i < segs.len() && segs[i].seg_start() <= a,
            None => true,
        },
    decreases segs.len(),
{
    if segs.len() > 0 && segs[segs.len() - 1].seg_start() > a {
        lemma_seg_lookup_props(segs.drop_last(), a);
    }
}

/// Lists whose segments agree position by position on start and size are
/// resolved identically.
proof fn lemma_seg_lookup_same_starts<M: Memory>(
    segs0: Seq<PagedMemorySegment<M>>,
    segs1: Seq<PagedMemorySegment<M>>,
    a: int,
)
    requires
        segs1.len() == segs0.len(),
        forall|j: int|
            0 <= j < segs0.len() ==> #[trigger] segs1[j].seg_start() == segs0[j].seg_start(),
    ensures
        seg_lookup(segs1, a) == seg_lookup(segs0, a),
    decreases segs0.len(),
{
    if segs0.len() > 0 {
        if segs0[segs0.len() - 1].seg_start() <= a {
        } else {
            lemma_seg_lookup_same_starts(segs0.drop_last(), segs1.drop_last(), a);
        }
    }
}

} // verus!
