use crate::error::NruError;
use vstd::prelude::*;

verus! {

/// The Referenced/Modified state of one page.
#[derive(Debug, Clone, Copy, PartialEq, Eq, Structural)]
pub enum PageFlags {
    NotRefNotMod,
    NotRefMod,
    RefNotMod,
    RefMod,
}

impl PageFlags {
    /// The page was read or written since the last tick.
    pub open spec fn referenced(self) -> bool {
        self is RefNotMod || self is RefMod
    }

    /// The page was written since it was last known clean.
    pub open spec fn modified(self) -> bool {
        self is NotRefMod || self is RefMod
    }

    /// The state with the given Referenced and Modified bits.
    pub open spec fn from_bits(r: bool, m: bool) -> PageFlags {
        if r {
            if m { PageFlags::RefMod } else { PageFlags::RefNotMod }
        } else {
            if m { PageFlags::NotRefMod } else { PageFlags::NotRefNotMod }
        }
    }

    /// The integer encoding: 2 for the Referenced bit plus 1 for the Modified
    /// bit. It is also the page's eviction class.
    pub open spec fn encoding(self) -> int {
        (if self.referenced() { 2int } else { 0int }) + (if self.modified() { 1int } else { 0int })
    }

    /// The state after a read: the Referenced bit set, the Modified bit kept.
    pub open spec fn with_referenced(self) -> PageFlags {
        PageFlags::from_bits(true, self.modified())
    }

    /// The state after a write: the Modified bit set, the Referenced bit kept.
    pub open spec fn with_modified(self) -> PageFlags {
        PageFlags::from_bits(self.referenced(), true)
    }

    /// The state after a clock tick: the Referenced bit cleared, the Modified
    /// bit kept.
    pub open spec fn ticked(self) -> PageFlags {
        PageFlags::from_bits(false, self.modified())
    }

    /// The integer encoding of this state, in `0..4`.
    pub fn code(&self) -> (r: i8)
        ensures
            r as int == self.encoding(),
    {
        match self {
            PageFlags::NotRefNotMod => 0,
            PageFlags::NotRefMod => 1,
            PageFlags::RefNotMod => 2,
            PageFlags::RefMod => 3,
        }
    }

    fn mark_referenced(&self) -> (r: PageFlags)
        ensures
            r == self.with_referenced(),
    {
        match self {
            PageFlags::NotRefNotMod => PageFlags::RefNotMod,
            PageFlags::NotRefMod => PageFlags::RefMod,
            PageFlags::RefNotMod => PageFlags::RefNotMod,
            PageFlags::RefMod => PageFlags::RefMod,
        }
    }

    fn mark_modified(&self) -> (r: PageFlags)
        ensures
            r == self.with_modified(),
    {
        match self {
            PageFlags::NotRefNotMod => PageFlags::NotRefMod,
            PageFlags::NotRefMod => PageFlags::NotRefMod,
            PageFlags::RefNotMod => PageFlags::RefMod,
            PageFlags::RefMod => PageFlags::RefMod,
        }
    }

    fn tick(&self) -> (r: PageFlags)
        ensures
            r == self.ticked(),
    {
        match self {
            PageFlags::NotRefNotMod => PageFlags::NotRefNotMod,
            PageFlags::NotRefMod => PageFlags::NotRefMod,
            PageFlags::RefNotMod => PageFlags::NotRefNotMod,
            PageFlags::RefMod => PageFlags::NotRefMod,
        }
    }
}

/// Marking one bit never disturbs the other: a read keeps the Modified bit
/// and a write keeps the Referenced bit.
pub proof fn lemma_marks_independent(f: PageFlags)
    ensures
        f.with_referenced().modified() == f.modified(),
        f.with_referenced().referenced(),
        f.with_modified().referenced() == f.referenced(),
        f.with_modified().modified(),
{
}

/// Every page of `s` after one clock tick.
pub open spec fn ticked_all(s: Seq<PageFlags>) -> Seq<PageFlags> {
    Seq::new(s.len(), |i: int| s[i].ticked())
}

/// Every page of `s` after `n` clock ticks in a row.
pub open spec fn tick_times(s: Seq<PageFlags>, n: nat) -> Seq<PageFlags>
    decreases n,
{
    if n == 0 {
        s
    } else {
        ticked_all(tick_times(s, (n - 1) as nat))
    }
}

/// However many clock ticks follow one another with no access between them,
/// after at least one every Referenced bit is clear and every Modified bit
/// is what it was before the first.
pub proof fn lemma_ticks_keep_modified(s: Seq<PageFlags>, n: nat)
    requires
        n >= 1,
    ensures
        tick_times(s, n).len() == s.len(),
        forall|i: int|
            0 <= i < s.len() ==> {
                &&& !(#[trigger] tick_times(s, n)[i]).referenced()
                &&& tick_times(s, n)[i].modified() == s[i].modified()
            },
    decreases n,
{
    let prev = tick_times(s, (n - 1) as nat);
    if n > 1 {
        lemma_ticks_keep_modified(s, (n - 1) as nat);
    }
    assert(tick_times(s, n) == ticked_all(prev));
    assert forall|i: int| 0 <= i < s.len() implies {
        &&& !(#[trigger] tick_times(s, n)[i]).referenced()
        &&& tick_times(s, n)[i].modified() == s[i].modified()
    } by {
        assert(tick_times(s, n)[i] == prev[i].ticked());
    }
}

/// A page table: one Referenced/Modified state per page, indexed by page
/// number.
pub struct Table {
    table: Vec<PageFlags>,
}

impl View for Table {
    type V = Seq<PageFlags>;

    closed spec fn view(&self) -> Seq<PageFlags> {
        self.table@
    }
}

impl Table {
    /// The page count is positive and every page number fits in an `i32`.
    pub open spec fn wf(&self) -> bool {
        0 < self@.len() <= i32::MAX
    }

    fn check_page(&self, page_num: i32) -> (r: bool)
        ensures
            r == (0 <= page_num < self@.len()),
    {
        0 <= page_num && (page_num as usize) < self.table.len()
    }

    /// A table of `page_count` pages, none referenced or modified.
    pub fn init(page_count: i32) -> (r: Result<Table, NruError>)
        ensures
            page_count <= 0 ==> r == Err::<Table, NruError>(NruError::InvalidSize),
            page_count > 0 ==> (r matches Ok(t) && t.wf() && t@ == Seq::new(
                page_count as nat,
                |i: int| PageFlags::NotRefNotMod,
            )),
    {
        if page_count <= 0 {
            return Err(NruError::InvalidSize);
        }
        let mut table: Vec<PageFlags> = Vec::new();
        let n: usize = page_count as usize;
        while table.len() < n
            invariant
                table.len() <= n,
                n == page_count,
                forall|i: int| 0 <= i < table.len() ==> table@[i] == PageFlags::NotRefNotMod,
            decreases n - table.len(),
        {
            table.push(PageFlags::NotRefNotMod);
        }
        let t = Table { table };
        assert(t@ =~= Seq::new(page_count as nat, |i: int| PageFlags::NotRefNotMod));
        Ok(t)
    }

    /// The number of pages.
    pub fn size(&self) -> (r: i32)
        requires
            self.wf(),
        ensures
            r == self@.len(),
    {
        self.table.len() as i32
    }

    /// The state of page `page_num`.
    pub fn get_page(&self, page_num: i32) -> (r: Result<PageFlags, NruError>)
        ensures
            0 <= page_num < self@.len() ==> r == Ok::<PageFlags, NruError>(
                self@[page_num as int],
            ),
            !(0 <= page_num < self@.len()) ==> r == Err::<PageFlags, NruError>(
                NruError::OutOfRange,
            ),
    {
        if !self.check_page(page_num) {
            return Err(NruError::OutOfRange);
        }
        Ok(self.table[page_num as usize])
    }

    /// Sets page `page_num` to the state with Referenced bit `r` (0 or 2) and
    /// Modified bit `m` (0 or 1).
    pub fn set_flags(&mut self, page_num: i32, r: i8, m: i8) -> (res: Result<(), NruError>)
        requires
            r == 0 || r == 2,
            m == 0 || m == 1,
        ensures
            0 <= page_num < old(self)@.len() ==> res == Ok::<(), NruError>(()) && final(self)@
                == old(self)@.update(page_num as int, PageFlags::from_bits(r == 2, m == 1)),
            !(0 <= page_num < old(self)@.len()) ==> res == Err::<(), NruError>(
                NruError::OutOfRange,
            ) && final(self)@ == old(self)@,
    {
        if !self.check_page(page_num) {
            return Err(NruError::OutOfRange);
        }
        let f = if r == 2 {
            if m == 1 { PageFlags::RefMod } else { PageFlags::RefNotMod }
        } else {
            if m == 1 { PageFlags::NotRefMod } else { PageFlags::NotRefNotMod }
        };
        self.table.set(page_num as usize, f);
        Ok(())
    }

    /// Sets the Referenced bit of page `page_num`, keeping its Modified bit.
    pub fn set_read(&mut self, page_num: i32) -> (res: Result<(), NruError>)
        ensures
            0 <= page_num < old(self)@.len() ==> res == Ok::<(), NruError>(()) && final(self)@
                == old(self)@.update(page_num as int, old(self)@[page_num as int].with_referenced()),
            !(0 <= page_num < old(self)@.len()) ==> res == Err::<(), NruError>(
                NruError::OutOfRange,
            ) && final(self)@ == old(self)@,
    {
        if !self.check_page(page_num) {
            return Err(NruError::OutOfRange);
        }
        let i = page_num as usize;
        let f = self.table[i].mark_referenced();
        self.table.set(i, f);
        Ok(())
    }

    /// Sets the Modified bit of page `page_num`, keeping its Referenced bit.
    pub fn set_write(&mut self, page_num: i32) -> (res: Result<(), NruError>)
        ensures
            0 <= page_num < old(self)@.len() ==> res == Ok::<(), NruError>(()) && final(self)@
                == old(self)@.update(page_num as int, old(self)@[page_num as int].with_modified()),
            !(0 <= page_num < old(self)@.len()) ==> res == Err::<(), NruError>(
                NruError::OutOfRange,
            ) && final(self)@ == old(self)@,
    {
        if !self.check_page(page_num) {
            return Err(NruError::OutOfRange);
        }
        let i = page_num as usize;
        let f = self.table[i].mark_modified();
        self.table.set(i, f);
        Ok(())
    }

    /// A clock tick: clears the Referenced bit of every page and keeps every
    /// Modified bit.
    pub fn reset(&mut self)
        ensures
            final(self)@ == ticked_all(old(self)@),
    {
        let mut new_tbl: Vec<PageFlags> = Vec::new();
        let mut i: usize = 0;
        while i < self.table.len()
            invariant
                i <= self.table.len(),
                new_tbl@ =~= ticked_all(self@).take(i as int),
            decreases self.table.len() - i,
        {
            new_tbl.push(self.table[i].tick());
            i = i + 1;
        }
        self.table = new_tbl;
    }
}

/// A cursor over the states of a table's pages, in page order.
pub struct TableIterator<'a> {
    table: &'a Table,
    pos: usize,
}

impl<'a> TableIterator<'a> {
    /// The table walked over.
    pub closed spec fn source(&self) -> Table {
        *self.table
    }

    /// The number of states handed out so far.
    pub closed spec fn position(&self) -> int {
        self.pos as int
    }

    /// A cursor at the first page of `table`.
    pub fn get_for(table: &'a Table) -> (r: TableIterator<'a>)
        ensures
            r.source() == *table,
            r.position() == 0,
    {
        TableIterator { table, pos: 0 }
    }

    /// The state of the next page, or `None` once every page was handed out.
    pub fn next(&mut self) -> (r: Option<PageFlags>)
        requires
            old(self).position() <= old(self).source()@.len(),
        ensures
            final(self).source() == old(self).source(),
            final(self).position() <= final(self).source()@.len(),
            old(self).position() < old(self).source()@.len() ==> r == Some(
                old(self).source()@[old(self).position()],
            ) && final(self).position() == old(self).position() + 1,
            old(self).position() == old(self).source()@.len() ==> r is None && final(self).position()
                == old(self).position(),
    {
        if self.pos >= self.table.table.len() {
            None
        } else {
            self.pos = self.pos + 1;
            Some(self.table.table[self.pos - 1])
        }
    }
}

} // verus!
