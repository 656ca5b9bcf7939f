use crate::error::NruError;
use crate::table::{ticked_all, PageFlags, Table};
use vstd::prelude::*;

verus! {

/// The page that linear address `addr` falls in.
pub open spec fn page_of(addr: int, page_size: int) -> int {
    addr / page_size
}

/// The position of linear address `addr` within its page.
pub open spec fn offset_of(addr: int, page_size: int) -> int {
    addr % page_size
}

/// Paged byte storage with a page table that records, for every page, whether
/// it was read or written since the last clock tick.
pub struct VirtualMemory {
    memory: Vec<Vec<i8>>,
    table: Table,
    page_size: i8,
}

impl VirtualMemory {
    /// The bytes of every page, by page number.
    pub closed spec fn pages(&self) -> Seq<Seq<i8>> {
        self.memory@.map_values(|p: Vec<i8>| p@)
    }

    /// The page table.
    pub closed spec fn flags(&self) -> Seq<PageFlags> {
        self.table@
    }

    /// The number of bytes in each page.
    pub closed spec fn spec_page_size(&self) -> int {
        self.page_size as int
    }

    /// The number of addressable bytes.
    pub open spec fn capacity(&self) -> int {
        self.pages().len() * self.spec_page_size()
    }

    /// One page table entry and one buffer of `page_size` bytes per page, and
    /// both the page count and the page size positive.
    pub open spec fn wf(&self) -> bool {
        &&& 0 < self.pages().len() <= i32::MAX
        &&& self.flags().len() == self.pages().len()
        &&& 0 < self.spec_page_size()
        &&& forall|i: int|
            0 <= i < self.pages().len() ==> (#[trigger] self.pages()[i]).len()
                == self.spec_page_size()
    }

    proof fn lemma_view(&self)
        ensures
            self.pages().len() == self.memory@.len(),
            forall|i: int| 0 <= i < self.memory@.len() ==> #[trigger] self.pages()[i] == self.memory@[i]@,
            self.flags() == self.table@,
            self.spec_page_size() == self.page_size,
    {
    }

    /// Storage of `page_count` pages of `page_size` zero bytes each, with no
    /// page referenced or modified.
    pub fn init(page_count: i32, page_size: i8) -> (r: Result<VirtualMemory, NruError>)
        ensures
            (page_count <= 0 || page_size <= 0) ==> r == Err::<VirtualMemory, NruError>(
                NruError::InvalidSize,
            ),
            (page_count > 0 && page_size > 0) ==> (r matches Ok(vm) && vm.wf()
                && vm.pages().len() == page_count && vm.spec_page_size() == page_size
                && vm.pages() == Seq::new(
                page_count as nat,
                |i: int| Seq::new(page_size as nat, |j: int| 0i8),
            ) && vm.flags() == Seq::new(page_count as nat, |i: int| PageFlags::NotRefNotMod)),
    {
        if page_count <= 0 || page_size <= 0 {
            return Err(NruError::InvalidSize);
        }
        let table = match Table::init(page_count) {
            Ok(t) => t,
            Err(e) => return Err(e),
        };
        let ghost zero_page = Seq::new(page_size as nat, |j: int| 0i8);
        let mut memory: Vec<Vec<i8>> = Vec::new();
        while memory.len() < page_count as usize
            invariant
                page_count > 0,
                page_size > 0,
                zero_page == Seq::new(page_size as nat, |j: int| 0i8),
                memory.len() <= page_count,
                forall|i: int| 0 <= i < memory.len() ==> (#[trigger] memory@[i])@ == zero_page,
            decreases page_count - memory.len(),
        {
            let mut page: Vec<i8> = Vec::new();
            while page.len() < page_size as usize
                invariant
                    page_size > 0,
                    zero_page == Seq::new(page_size as nat, |j: int| 0i8),
                    page.len() <= page_size,
                    forall|j: int| 0 <= j < page.len() ==> page@[j] == 0i8,
                decreases page_size - page.len(),
            {
                page.push(0);
            }
            assert(page@ =~= zero_page);
            memory.push(page);
        }
        let vm = VirtualMemory { memory, table, page_size };
        proof {
            vm.lemma_view();
            assert(vm.pages() =~= Seq::new(page_count as nat, |i: int| zero_page));
        }
        Ok(vm)
    }

    fn check_addr(&self, addr: i64) -> (r: bool)
        requires
            self.wf(),
        ensures
            r == (0 <= addr < self.capacity()),
    {
        proof {
            self.lemma_view();
            let n = self.memory@.len() as int;
            let s = self.page_size as int;
            assert(0 < n * s <= 0x7fff_ffff * 0x7f) by (nonlinear_arith)
                requires
                    0 < n <= 0x7fff_ffff,
                    0 < s <= 0x7f,
            ;
        }
        let capacity: i64 = self.memory.len() as i64 * self.page_size as i64;
        0 <= addr && addr < capacity
    }

    /// The page and the offset within it that linear address `addr` stands
    /// for.
    pub fn translate(&self, addr: i64) -> (r: Result<(usize, usize), NruError>)
        requires
            self.wf(),
        ensures
            0 <= addr < self.capacity() ==> (r matches Ok((p, o)) && p as int == page_of(
                addr as int,
                self.spec_page_size(),
            ) && o as int == offset_of(addr as int, self.spec_page_size()) && p
                < self.pages().len() && o < self.spec_page_size()),
            !(0 <= addr < self.capacity()) ==> r == Err::<(usize, usize), NruError>(
                NruError::AddressOutOfRange,
            ),
    {
        if !self.check_addr(addr) {
            return Err(NruError::AddressOutOfRange);
        }
        let size = self.page_size as i64;
        let page = addr / size;
        let offset = addr % size;
        proof {
            self.lemma_view();
            let n = self.memory@.len() as int;
            let s = self.page_size as int;
            let a = addr as int;
            assert(a / s < n) by (nonlinear_arith)
                requires
                    0 <= a < n * s,
                    0 < s,
            ;
            assert(0 <= a / s) by (nonlinear_arith)
                requires
                    0 <= a,
                    0 < s,
            ;
        }
        Ok((page as usize, offset as usize))
    }

    /// Reads the byte at linear address `addr` and marks its page referenced.
    pub fn read(&mut self, addr: i64) -> (r: Result<i8, NruError>)
        requires
            old(self).wf(),
        ensures
            final(self).wf(),
            final(self).spec_page_size() == old(self).spec_page_size(),
            final(self).pages() == old(self).pages(),
            0 <= addr < old(self).capacity() ==> {
                let p = page_of(addr as int, old(self).spec_page_size());
                let o = offset_of(addr as int, old(self).spec_page_size());
                &&& r == Ok::<i8, NruError>(old(self).pages()[p][o])
                &&& final(self).flags() == old(self).flags().update(
                    p,
                    old(self).flags()[p].with_referenced(),
                )
            },
            !(0 <= addr < old(self).capacity()) ==> r == Err::<i8, NruError>(
                NruError::AddressOutOfRange,
            ) && final(self).flags() == old(self).flags(),
    {
        let (page, offset) = match self.translate(addr) {
            Ok(po) => po,
            Err(e) => return Err(e),
        };
        proof {
            self.lemma_view();
        }
        let _ = self.table.set_read(page as i32);
        proof {
            self.lemma_view();
            assert(self.pages()[page as int].len() == self.spec_page_size());
        }
        Ok(self.memory[page][offset])
    }

    /// Stores `value` at linear address `addr` and marks its page modified.
    pub fn write(&mut self, addr: i64, value: i8) -> (r: Result<(), NruError>)
        requires
            old(self).wf(),
        ensures
            final(self).wf(),
            final(self).spec_page_size() == old(self).spec_page_size(),
            0 <= addr < old(self).capacity() ==> {
                let p = page_of(addr as int, old(self).spec_page_size());
                let o = offset_of(addr as int, old(self).spec_page_size());
                &&& r == Ok::<(), NruError>(())
                &&& final(self).pages() == old(self).pages().update(
                    p,
                    old(self).pages()[p].update(o, value),
                )
                &&& final(self).flags() == old(self).flags().update(
                    p,
                    old(self).flags()[p].with_modified(),
                )
            },
            !(0 <= addr < old(self).capacity()) ==> r == Err::<(), NruError>(
                NruError::AddressOutOfRange,
            ) && final(self).pages() == old(self).pages() && final(self).flags() == old(
                self,
            ).flags(),
    {
        let (page, offset) = match self.translate(addr) {
            Ok(po) => po,
            Err(e) => return Err(e),
        };
        proof {
            self.lemma_view();
        }
        let _ = self.table.set_write(page as i32);
        proof {
            assert(old(self).pages()[page as int].len() == self.spec_page_size());
        }
        let mut buf: Vec<i8> = Vec::new();
        self.memory.set_and_swap(page, &mut buf);
        buf.set(offset, value);
        self.memory.set_and_swap(page, &mut buf);
        proof {
            self.lemma_view();
            assert(self.pages() =~= old(self).pages().update(
                page as int,
                old(self).pages()[page as int].update(offset as int, value),
            ));
        }
        Ok(())
    }

    /// A clock tick: clears every page's Referenced bit; the stored bytes stay.
    pub fn reset(&mut self)
        requires
            old(self).wf(),
        ensures
            final(self).wf(),
            final(self).spec_page_size() == old(self).spec_page_size(),
            final(self).pages() == old(self).pages(),
            final(self).flags() == ticked_all(old(self).flags()),
    {
        self.table.reset();
    }

    /// Read access to the page table.
    pub fn get_table(&self) -> (r: &Table)
        ensures
            r@ == self.flags(),
    {
        &self.table
    }

    /// The number of pages.
    pub fn pages_count(&self) -> (r: usize)
        ensures
            r == self.pages().len(),
    {
        self.memory.len()
    }

    /// The number of bytes in each page.
    pub fn page_size(&self) -> (r: i8)
        ensures
            r == self.spec_page_size(),
    {
        self.page_size
    }
}

} // verus!
