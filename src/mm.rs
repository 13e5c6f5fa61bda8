//! The user part of an address space as the kernel sees it for `mmap` and
//! `munmap`: which virtual pages are mapped, and with which permissions.

use vstd::prelude::*;
use crate::config::{PAGE_SIZE, USER_SPACE_TOP};

verus! {

/// A physical page number.
#[derive(Clone, Copy, PartialEq, Eq, Structural, Debug)]
pub struct PhysPageNum(pub usize);

/// Page-table permission flags: readable.
pub const PTE_R: u8 = 2;
/// Page-table permission flags: writable.
pub const PTE_W: u8 = 4;
/// Page-table permission flags: executable.
pub const PTE_X: u8 = 8;
/// Page-table permission flags: reachable from user mode.
pub const PTE_U: u8 = 16;

/// The page-table flags that `mmap` gives for the permission argument `port`
/// (bit 0 readable, bit 1 writable, bit 2 executable): each bit moves one
/// place up, and every user mapping is reachable from user mode.
pub open spec fn map_perm(port: int) -> int {
    port * 2 + PTE_U
}

/// One mapped user page.
#[derive(Clone, Copy, PartialEq, Eq, Structural, Debug)]
pub struct MappedPage {
    pub vpn: usize,
    pub perm: u8,
}

/// Whether page `vpn` overlaps the byte range `[start, start + len)`,
/// for a page-aligned `start`.
pub open spec fn page_in_range(vpn: int, start: int, len: int) -> bool {
    start <= vpn * PAGE_SIZE < start + len
}

/// The first page number past the user part of an address space.
pub open spec fn user_page_limit() -> int {
    USER_SPACE_TOP as int / PAGE_SIZE as int
}

/// For a page-aligned `start` and a non-empty range, the pages that overlap
/// `[start, start + len)` are those from `start / PAGE_SIZE` up to the page of
/// the range's last byte.
proof fn lemma_page_bounds(start: int, len: int)
    requires
        start >= 0,
        start % PAGE_SIZE as int == 0,
        len > 0,
    ensures
        forall|v: int|
            page_in_range(v, start, len) <==> start / PAGE_SIZE as int <= v < (start + len - 1)
                / PAGE_SIZE as int + 1,
{
}

/// An address space: its token (what the page-table register is loaded with
/// to run in it) and the user pages mapped in it.
pub struct MemorySet {
    pub token: usize,
    pub pages: Vec<MappedPage>,
}

impl MemorySet {
    /// The page numbers mapped in this address space.
    pub open spec fn mapped(&self) -> Set<int> {
        Set::new(|v: int| exists|i: int| 0 <= i < self.pages@.len() && self.pages@[i].vpn == v)
    }

    /// Whether page `vpn` is mapped with flags `perm`.
    pub open spec fn maps(&self, vpn: int, perm: int) -> bool {
        exists|i: int| 0 <= i < self.pages@.len() && self.pages@[i].vpn == vpn
            && self.pages@[i].perm == perm
    }

    /// Every mapped page lies in the user part of the address space.
    pub open spec fn wf(&self) -> bool {
        forall|i: int| 0 <= i < self.pages@.len() ==> self.pages@[i].vpn < user_page_limit()
    }

    /// When `mmap(start, len, port)` succeeds: `start` is page-aligned, `len`
    /// is not zero, `port` sets no bit but the three permission bits, the
    /// range ends inside the user part, and none of its pages is mapped.
    pub open spec fn can_map(&self, start: int, len: int, port: int) -> bool {
        &&& start % PAGE_SIZE as int == 0
        &&& len > 0
        &&& 0 <= port < 8
        &&& start + len <= USER_SPACE_TOP
        &&& forall|v: int| page_in_range(v, start, len) ==> !self.mapped().contains(v)
    }

    /// When `munmap(start, len)` succeeds: `start` is page-aligned and every
    /// page of `[start, start + len)` is mapped.
    pub open spec fn can_unmap(&self, start: int, len: int) -> bool {
        &&& start % PAGE_SIZE as int == 0
        &&& forall|v: int| page_in_range(v, start, len) ==> self.mapped().contains(v)
    }

    /// An address space with the given token and no user pages mapped.
    pub fn new(token: usize) -> (r: MemorySet)
        ensures
            r.token == token,
            r.mapped() == Set::<int>::empty(),
            r.wf(),
    {
        let r = MemorySet { token, pages: Vec::new() };
        assert(r.mapped() =~= Set::<int>::empty());
        r
    }

    /// The token that identifies this address space.
    pub fn token(&self) -> (r: usize)
        ensures
            r == self.token,
    {
        self.token
    }

    /// Whether page `vpn` is mapped.
    pub fn is_mapped(&self, vpn: usize) -> (r: bool)
        ensures
            r == self.mapped().contains(vpn as int),
    {
        let mut i: usize = 0;
        while i < self.pages.len()
            invariant
                i <= self.pages@.len(),
                forall|k: int| 0 <= k < i ==> self.pages@[k].vpn != vpn,
            decreases self.pages@.len() - i,
        {
            if self.pages[i].vpn == vpn {
                return true;
            }
            i += 1;
        }
        false
    }

    /// Maps the pages of `[start, start + len)` with the permissions in
    /// `port`, all or none: on any failure nothing changes.
    pub fn mmap(&mut self, start: usize, len: usize, port: usize) -> (ok: bool)
        requires
            old(self).wf(),
        ensures
            final(self).wf(),
            final(self).token == old(self).token,
            ok == old(self).can_map(start as int, len as int, port as int),
            ok ==> final(self).mapped() == old(self).mapped().union(
                Set::new(|v: int| page_in_range(v, start as int, len as int)),
            ),
            ok ==> forall|v: int, p: int| #[trigger]
                final(self).maps(v, p) <==> old(self).maps(v, p) || (page_in_range(
                    v,
                    start as int,
                    len as int,
                ) && p == map_perm(port as int)),
            !ok ==> final(self).pages@ == old(self).pages@,
    {
        if start % PAGE_SIZE != 0 || len == 0 || port >= 8 || start > USER_SPACE_TOP || len
            > USER_SPACE_TOP - start {
            return false;
        }
        let first = start / PAGE_SIZE;
        let end = (start + len - 1) / PAGE_SIZE + 1;
        proof {
            lemma_page_bounds(start as int, len as int);
        }
        let mut i: usize = 0;
        while i < self.pages.len()
            invariant
                i <= self.pages@.len(),
                *self == *old(self),
                self.wf(),
                forall|v: int| page_in_range(v, start as int, len as int) <==> first <= v < end,
                forall|k: int| 0 <= k < i ==> !(first <= #[trigger] self.pages@[k].vpn < end),
            decreases self.pages@.len() - i,
        {
            let vpn = self.pages[i].vpn;
            if first <= vpn && vpn < end {
                assert(page_in_range(vpn as int, start as int, len as int));
                assert(self.mapped().contains(vpn as int));
                return false;
            }
            i += 1;
        }
        assert forall|v: int| page_in_range(v, start as int, len as int) implies !self.mapped().contains(v) by {
            if self.mapped().contains(v) {
                let k = choose|k: int| 0 <= k < self.pages@.len() && self.pages@[k].vpn == v;
                assert(!(first <= self.pages@[k].vpn < end));
            }
        }
        assert(end <= USER_SPACE_TOP / PAGE_SIZE);
        let perm: u8 = (port as u8) * 2 + PTE_U;
        let ghost before = self.pages@;
        let mut v: usize = first;
        while v < end
            invariant
                first <= v <= end,
                end <= user_page_limit(),
                self.token == old(self).token,
                self.wf(),
                forall|v: int| page_in_range(v, start as int, len as int) <==> first <= v < end,
                self.pages@.len() == before.len() + (v - first),
                forall|k: int| 0 <= k < before.len() ==> self.pages@[k] == before[k],
                forall|k: int|
                    before.len() <= k < self.pages@.len() ==> #[trigger] self.pages@[k] == (
                    MappedPage { vpn: (first + (k - before.len())) as usize, perm }),
                forall|k: int| 0 <= k < before.len() ==> before[k].vpn < user_page_limit(),
            decreases end - v,
        {
            self.pages.push(MappedPage { vpn: v, perm });
            v += 1;
            assert(self.pages@[self.pages@.len() - 1].vpn < user_page_limit());
        }
        assert(perm == map_perm(port as int));
        assert forall|v: int| page_in_range(v, start as int, len as int) implies #[trigger] self.maps(
            v,
            map_perm(port as int),
        ) by {
            let k = before.len() + (v - first);
            assert(self.pages@[k].vpn == v);
        }
        assert forall|v: int, p: int| #[trigger]
            self.maps(v, p) <==> old(self).maps(v, p) || (page_in_range(v, start as int, len as int)
                && p == map_perm(port as int)) by {
            if old(self).maps(v, p) {
                let k = choose|k: int| 0 <= k < before.len() && before[k].vpn == v && before[k].perm == p;
                assert(self.pages@[k] == before[k]);
            }
            if self.maps(v, p) {
                let k = choose|k: int| 0 <= k < self.pages@.len() && self.pages@[k].vpn == v && self.pages@[k].perm == p;
                if k < before.len() {
                    assert(old(self).pages@[k] == self.pages@[k]);
                } else {
                    assert(self.pages@[k].vpn == first + (k - before.len()));
                }
            }
        }
        let ghost range = Set::new(|v: int| page_in_range(v, start as int, len as int));
        assert forall|v: int| #[trigger] self.mapped().contains(v) <==> old(self).mapped().union(range).contains(v) by {
            if self.mapped().contains(v) {
                let k = choose|k: int| 0 <= k < self.pages@.len() && self.pages@[k].vpn == v;
                if k < before.len() {
                    assert(old(self).pages@[k].vpn == v);
                } else {
                    assert(self.pages@[k].vpn == first + (k - before.len()));
                }
            }
            if old(self).mapped().contains(v) {
                let k = choose|k: int| 0 <= k < before.len() && before[k].vpn == v;
                assert(self.pages@[k].vpn == v);
            }
            if range.contains(v) {
                let k = before.len() + (v - first);
                assert(self.pages@[k].vpn == v);
            }
        }
        assert(self.mapped() =~= old(self).mapped().union(range));
        true
    }

    /// Unmaps the pages of `[start, start + len)`, all or none: on any
    /// failure nothing changes.
    pub fn munmap(&mut self, start: usize, len: usize) -> (ok: bool)
        requires
            old(self).wf(),
        ensures
            final(self).wf(),
            final(self).token == old(self).token,
            ok == old(self).can_unmap(start as int, len as int),
            ok ==> final(self).mapped() == old(self).mapped().difference(
                Set::new(|v: int| page_in_range(v, start as int, len as int)),
            ),
            ok ==> forall|v: int, p: int| #[trigger]
                final(self).maps(v, p) <==> old(self).maps(v, p) && !page_in_range(
                    v,
                    start as int,
                    len as int,
                ),
            !ok ==> final(self).pages@ == old(self).pages@,
    {
        if start % PAGE_SIZE != 0 {
            return false;
        }
        let ghost range = Set::new(|v: int| page_in_range(v, start as int, len as int));
        if len == 0 {
            assert(self.mapped().difference(range) =~= self.mapped());
            return true;
        }
        proof {
            lemma_page_bounds(start as int, len as int);
        }
        if start >= USER_SPACE_TOP || len > USER_SPACE_TOP - start {
            let ghost v: int = if start >= USER_SPACE_TOP { start as int / PAGE_SIZE as int } else { user_page_limit() };
            assert(page_in_range(v, start as int, len as int));
            assert(!self.mapped().contains(v));
            return false;
        }
        let first = start / PAGE_SIZE;
        let end = (start + len - 1) / PAGE_SIZE + 1;
        let mut v: usize = first;
        while v < end
            invariant
                first <= v <= end,
                self.pages@ == old(self).pages@,
                self.token == old(self).token,
                self.wf(),
                forall|u: int| page_in_range(u, start as int, len as int) <==> first <= u < end,
                forall|u: int| first <= u < v ==> self.mapped().contains(u),
            decreases end - v,
        {
            if !self.is_mapped(v) {
                assert(page_in_range(v as int, start as int, len as int));
                return false;
            }
            v += 1;
        }
        let ghost before = self.pages@;
        let mut kept: Vec<MappedPage> = Vec::new();
        let mut i: usize = 0;
        while i < self.pages.len()
            invariant
                i <= before.len(),
                self.pages@ == before,
                forall|k: int| 0 <= k < kept@.len() ==> !(first <= #[trigger] kept@[k].vpn < end),
                forall|k: int| 0 <= k < kept@.len() ==> exists|j: int| 0 <= j < i && before[j] == #[trigger] kept@[k],
                forall|j: int| 0 <= j < i && !(first <= before[j].vpn < end) ==> exists|k: int|
                    0 <= k < kept@.len() && kept@[k] == #[trigger] before[j],
            decreases before.len() - i,
        {
            let page = self.pages[i];
            let ghost prev = kept@;
            if !(first <= page.vpn && page.vpn < end) {
                kept.push(page);
                assert(kept@[kept@.len() - 1] == before[i as int]);
            }
            assert(forall|k: int| 0 <= k < prev.len() ==> kept@[k] == prev[k]);
            i += 1;
        }
        self.pages = kept;
        assert(self.pages@ == kept@);
        assert forall|v: int, p: int| #[trigger]
            self.maps(v, p) <==> old(self).maps(v, p) && !page_in_range(v, start as int, len as int) by {
            if self.maps(v, p) {
                let k = choose|k: int| 0 <= k < self.pages@.len() && self.pages@[k].vpn == v && self.pages@[k].perm == p;
                let j = choose|j: int| 0 <= j < before.len() && before[j] == self.pages@[k];
            }
            if old(self).maps(v, p) && !page_in_range(v, start as int, len as int) {
                let j = choose|j: int| 0 <= j < before.len() && before[j].vpn == v && before[j].perm == p;
                let k = choose|k: int| 0 <= k < self.pages@.len() && self.pages@[k] == before[j];
            }
        }
        assert forall|v: int| #[trigger] self.mapped().contains(v) <==> old(self).mapped().difference(range).contains(v) by {
            if self.mapped().contains(v) {
                let k = choose|k: int| 0 <= k < self.pages@.len() && self.pages@[k].vpn == v;
                assert(self.maps(v, self.pages@[k].perm as int));
            }
            if old(self).mapped().difference(range).contains(v) {
                let j = choose|j: int| 0 <= j < before.len() && before[j].vpn == v;
                assert(old(self).maps(v, before[j].perm as int));
            }
        }
        assert(self.mapped() =~= old(self).mapped().difference(range));
        assert forall|k: int| 0 <= k < self.pages@.len() implies self.pages@[k].vpn < user_page_limit() by {
            let j = choose|j: int| 0 <= j < before.len() && before[j] == self.pages@[k];
        }
        true
    }
}


/// The page that holds `start` lies in `[start, start + len)` when `start`
/// is page-aligned and `len` is not zero.
proof fn lemma_first_page_in_range(start: usize, len: usize)
    requires
        start % PAGE_SIZE == 0,
        len > 0,
    ensures
        page_in_range(start as int / PAGE_SIZE as int, start as int, len as int),
{
}

/// `mmap` refuses a start address that is not page-aligned, whatever the
/// address space holds; on refusal it changes nothing.
pub proof fn lemma_mmap_misaligned_fails(ms: MemorySet, start: usize, len: usize, port: usize)
    requires
        start % PAGE_SIZE != 0,
    ensures
        !ms.can_map(start as int, len as int, port as int),
{
}

/// Right after `mmap(start, len, port)` succeeded, the same call fails:
/// its range now overlaps what it mapped.
pub proof fn lemma_mmap_repeat_fails(
    before: MemorySet,
    after: MemorySet,
    start: usize,
    len: usize,
    port: usize,
)
    requires
        before.can_map(start as int, len as int, port as int),
        after.mapped() == before.mapped().union(
            Set::new(|v: int| page_in_range(v, start as int, len as int)),
        ),
    ensures
        !after.can_map(start as int, len as int, port as int),
{
    lemma_first_page_in_range(start, len);
    assert(after.mapped().contains(start as int / PAGE_SIZE as int));
}

/// After a successful `mmap(start, len, port)`, `munmap(start, len)`
/// succeeds; once it has, the same `munmap` fails, as the range is no longer
/// mapped.
pub proof fn lemma_mmap_then_munmap(
    m0: MemorySet,
    m1: MemorySet,
    m2: MemorySet,
    start: usize,
    len: usize,
    port: usize,
)
    requires
        m0.can_map(start as int, len as int, port as int),
        m1.mapped() == m0.mapped().union(
            Set::new(|v: int| page_in_range(v, start as int, len as int)),
        ),
        m2.mapped() == m1.mapped().difference(
            Set::new(|v: int| page_in_range(v, start as int, len as int)),
        ),
    ensures
        m1.can_unmap(start as int, len as int),
        !m2.can_unmap(start as int, len as int),
{
    lemma_first_page_in_range(start, len);
    assert(!m2.mapped().contains(start as int / PAGE_SIZE as int));
}

} // verus!
