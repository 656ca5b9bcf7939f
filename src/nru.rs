use crate::error::NruError;
use crate::table::{PageFlags, TableIterator};
use crate::vm::VirtualMemory;
use vstd::prelude::*;

verus! {

/// The page numbers whose state has encoding `k`, in ascending order.
pub open spec fn class_of(flags: Seq<PageFlags>, k: int) -> Seq<i32>
    decreases flags.len(),
{
    if flags.len() == 0 {
        Seq::empty()
    } else {
        let prev = class_of(flags.drop_last(), k);
        if flags.last().encoding() == k {
            prev.push((flags.len() - 1) as i32)
        } else {
            prev
        }
    }
}

proof fn lemma_class_of(flags: Seq<PageFlags>, k: int)
    requires
        flags.len() <= i32::MAX,
    ensures
        forall|j: int|
            0 <= j < class_of(flags, k).len() ==> {
                let p = #[trigger] class_of(flags, k)[j];
                &&& 0 <= p < flags.len()
                &&& flags[p as int].encoding() == k
            },
        forall|j1: int, j2: int|
            0 <= j1 < j2 < class_of(flags, k).len() ==> class_of(flags, k)[j1] < class_of(
                flags,
                k,
            )[j2],
        forall|i: int|
            0 <= i < flags.len() && (#[trigger] flags[i]).encoding() == k ==> class_of(
                flags,
                k,
            ).contains(i as i32),
    decreases flags.len(),
{
    if flags.len() > 0 {
        let prev_flags = flags.drop_last();
        lemma_class_of(prev_flags, k);
        let prev = class_of(prev_flags, k);
        let c = class_of(flags, k);
        let last = flags.len() - 1;
        assert forall|i: int|
            0 <= i < flags.len() && (#[trigger] flags[i]).encoding() == k implies c.contains(
            i as i32,
        ) by {
            if i < last {
                assert(prev_flags[i] == flags[i]);
                let j = choose|j: int| 0 <= j < prev.len() && prev[j] == i as i32;
                assert(c[j] == i as i32);
            } else {
                assert(c[c.len() - 1] == i as i32);
            }
        }
    }
}

/// After a classification of `flags`, the four classes partition the page
/// numbers `[0, flags.len())`: each page is in the class of its state, in
/// no other, and no class holds a page twice.
pub proof fn lemma_classes_partition(flags: Seq<PageFlags>)
    requires
        flags.len() <= i32::MAX,
    ensures
        forall|i: int|
            0 <= i < flags.len() ==> class_of(flags, (#[trigger] flags[i]).encoding()).contains(
                i as i32,
            ),
        forall|k: int, p: i32|
            #[trigger] class_of(flags, k).contains(p) ==> 0 <= p < flags.len() && 0 <= k < 4
                && flags[p as int].encoding() == k,
        forall|k1: int, k2: int, p: i32|
            #[trigger] class_of(flags, k1).contains(p) && #[trigger] class_of(flags, k2).contains(p)
                ==> k1 == k2,
        forall|k: int| #[trigger] class_of(flags, k).no_duplicates(),
{
    assert forall|i: int| 0 <= i < flags.len() implies class_of(
        flags,
        (#[trigger] flags[i]).encoding(),
    ).contains(i as i32) by {
        lemma_class_of(flags, flags[i].encoding());
    }
    assert forall|k: int, p: i32| #[trigger] class_of(flags, k).contains(p) implies 0 <= p
        < flags.len() && 0 <= k < 4 && flags[p as int].encoding() == k by {
        lemma_class_of(flags, k);
        let j = choose|j: int| 0 <= j < class_of(flags, k).len() && class_of(flags, k)[j] == p;
        assert(class_of(flags, k)[j] == p);
    }
    assert forall|k: int| #[trigger] class_of(flags, k).no_duplicates() by {
        lemma_class_of(flags, k);
        let c = class_of(flags, k);
        assert forall|j1: int, j2: int| 0 <= j1 < c.len() && 0 <= j2 < c.len() && j1 != j2 implies c[j1]
            != c[j2] by {
            if j1 < j2 {
                assert(c[j1] < c[j2]);
            } else {
                assert(c[j2] < c[j1]);
            }
        }
    }
}

/// Relies on rand::thread_rng and rand 0.7's Rng::gen_range(low, high),
/// which returns a number in `[low, high)` and panics when `low >= high`.
#[verifier::external_body]
fn random_below(n: usize) -> (r: usize)
    requires
        n > 0,
    ensures
        r < n,
{
    rand::Rng::gen_range(&mut rand::thread_rng(), 0usize, n)
}

/// The Not Recently Used classifier: the page numbers of a table split into
/// four classes by their Referenced/Modified state, class 0 the best
/// eviction candidates.
pub struct NRU {
    class0: Vec<i32>,
    class1: Vec<i32>,
    class2: Vec<i32>,
    class3: Vec<i32>,
}

impl NRU {
    /// The page numbers in class `k`, in the order the last pass found them.
    pub closed spec fn class(&self, k: int) -> Seq<i32> {
        if k == 0 {
            self.class0@
        } else if k == 1 {
            self.class1@
        } else if k == 2 {
            self.class2@
        } else if k == 3 {
            self.class3@
        } else {
            Seq::empty()
        }
    }

    /// The first non-empty class, or 4 when all four are empty.
    pub open spec fn lowest_class(&self) -> int {
        if self.class(0).len() > 0 {
            0
        } else if self.class(1).len() > 0 {
            1
        } else if self.class(2).len() > 0 {
            2
        } else if self.class(3).len() > 0 {
            3
        } else {
            4
        }
    }

    /// A classifier whose four classes are empty.
    pub fn init() -> (r: NRU)
        ensures
            forall|k: int| #[trigger] r.class(k) == Seq::<i32>::empty(),
    {
        let r = NRU { class0: Vec::new(), class1: Vec::new(), class2: Vec::new(), class3: Vec::new() };
        assert(r.class0@ =~= Seq::<i32>::empty());
        r
    }

    /// Rebuilds the four classes from the page table of `vm`: page `i` goes to
    /// the class of its state's encoding, pages in ascending order.
    pub fn go_through(&mut self, vm: &VirtualMemory)
        requires
            vm.wf(),
        ensures
            forall|k: int| 0 <= k < 4 ==> #[trigger] final(self).class(k) == class_of(vm.flags(), k),
    {
        self.class0.clear();
        self.class1.clear();
        self.class2.clear();
        self.class3.clear();
        let table = vm.get_table();
        let ghost flags = vm.flags();
        let mut it = TableIterator::get_for(table);
        let n: usize = table.size() as usize;
        let mut idx: usize = 0;
        while idx < n
            invariant
                n == flags.len(),
                flags == table@,
                flags.len() <= i32::MAX,
                it.source()@ == flags,
                it.position() == idx,
                idx <= flags.len(),
                forall|k: int| 0 <= k < 4 ==> #[trigger] self.class(k) == class_of(flags.take(idx as int), k),
            decreases flags.len() - idx,
        {
            let ghost before = flags.take(idx as int);
            let ghost prev = *self;
            let next = it.next();
            let f = match next {
                Some(f) => f,
                None => PageFlags::NotRefNotMod,
            };
            let page = idx as i32;
            match f {
                PageFlags::NotRefNotMod => self.class0.push(page),
                PageFlags::NotRefMod => self.class1.push(page),
                PageFlags::RefNotMod => self.class2.push(page),
                PageFlags::RefMod => self.class3.push(page),
            }
            idx = idx + 1;
            proof {
                let now = flags.take(idx as int);
                assert(now.drop_last() =~= before);
                assert(now.last() == f);
                assert forall|k: int| 0 <= k < 4 implies #[trigger] self.class(k) == class_of(
                    now,
                    k,
                ) by {
                    assert(prev.class(k) == class_of(before, k));
                    assert(class_of(now, k) == (if f.encoding() == k {
                        class_of(before, k).push(page)
                    } else {
                        class_of(before, k)
                    }));
                }
            }
        }
        proof {
            assert(flags.take(idx as int) =~= flags);
        }
    }

    /// The page at position `draw % len` of the first non-empty class, of
    /// length `len`; `NoPages` when every class is empty.
    pub fn pick_victim(&self, draw: usize) -> (r: Result<i32, NruError>)
        ensures
            self.lowest_class() == 4 ==> r == Err::<i32, NruError>(NruError::NoPages),
            self.lowest_class() < 4 ==> r == Ok::<i32, NruError>(
                self.class(self.lowest_class())[draw as int % self.class(
                    self.lowest_class(),
                ).len() as int],
            ),
    {
        let cls = if self.class0.len() > 0 {
            &self.class0
        } else if self.class1.len() > 0 {
            &self.class1
        } else if self.class2.len() > 0 {
            &self.class2
        } else if self.class3.len() > 0 {
            &self.class3
        } else {
            return Err(NruError::NoPages);
        };
        Ok(cls[draw % cls.len()])
    }

    /// A page chosen at random from the first non-empty class; `NoPages`
    /// when every class is empty. The classes stay as they are.
    pub fn get_nru_page(&mut self) -> (r: Result<i32, NruError>)
        ensures
            *final(self) == *old(self),
            old(self).lowest_class() == 4 ==> r == Err::<i32, NruError>(NruError::NoPages),
            old(self).lowest_class() < 4 ==> (r matches Ok(p) && old(self).class(
                old(self).lowest_class(),
            ).contains(p)),
    {
        let len = if self.class0.len() > 0 {
            self.class0.len()
        } else if self.class1.len() > 0 {
            self.class1.len()
        } else if self.class2.len() > 0 {
            self.class2.len()
        } else {
            self.class3.len()
        };
        if len == 0 {
            return Err(NruError::NoPages);
        }
        let draw = random_below(len);
        let r = self.pick_victim(draw);
        proof {
            let c = self.class(self.lowest_class());
            vstd::arithmetic::div_mod::lemma_small_mod(draw as nat, c.len());
        }
        r
    }

    /// The page numbers in class `k`.
    pub fn pages_in_class(&self, k: usize) -> (r: &Vec<i32>)
        requires
            k < 4,
        ensures
            r@ == self.class(k as int),
    {
        if k == 0 {
            &self.class0
        } else if k == 1 {
            &self.class1
        } else if k == 2 {
            &self.class2
        } else {
            &self.class3
        }
    }
}

} // verus!
