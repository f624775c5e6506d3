//! Values that can be compared and copied by what they hold.
use vstd::prelude::*;
use crate::table::Table;
use crate::text;

verus! {

/// A value whose equality goes by what it holds and whose copy is the value itself.
pub trait Record: Sized {
    /// The two hold the same.
    spec fn alike(&self, other: &Self) -> bool;

    /// Every value holds the same as itself.
    proof fn alike_reflexive(&self)
        ensures
            self.alike(self),
    ;

    /// Whether the two hold the same.
    fn same(&self, other: &Self) -> (r: bool)
        ensures
            r == self.alike(other),
    ;

    /// The same value.
    fn copy(&self) -> (r: Self)
        ensures
            r == *self,
    ;
}

impl Record for String {
    open spec fn alike(&self, other: &Self) -> bool {
        self@ == other@
    }

    proof fn alike_reflexive(&self) {
    }

    fn same(&self, other: &Self) -> (r: bool) {
        let r: bool = text::same(self, other);
        assert(self.alike(other) == (self@ == other@));
        r
    }

    fn copy(&self) -> (r: Self) {
        self.clone()
    }
}

impl Record for u64 {
    open spec fn alike(&self, other: &Self) -> bool {
        *self == *other
    }

    proof fn alike_reflexive(&self) {
    }

    fn same(&self, other: &Self) -> (r: bool) {
        *self == *other
    }

    fn copy(&self) -> (r: Self) {
        *self
    }
}

impl Record for bool {
    open spec fn alike(&self, other: &Self) -> bool {
        *self == *other
    }

    proof fn alike_reflexive(&self) {
    }

    fn same(&self, other: &Self) -> (r: bool) {
        *self == *other
    }

    fn copy(&self) -> (r: Self) {
        *self
    }
}

impl<T: Record> Record for Option<T> {
    open spec fn alike(&self, other: &Self) -> bool {
        match (*self, *other) {
            (Some(a), Some(b)) => a.alike(&b),
            (None, None) => true,
            _ => false,
        }
    }

    proof fn alike_reflexive(&self) {
        if let Some(a) = *self {
            a.alike_reflexive();
        }
    }

    fn same(&self, other: &Self) -> (r: bool) {
        match (self, other) {
            (Some(a), Some(b)) => {
                assert(self.alike(other) == a.alike(b));
                a.same(b)
            },
            (None, None) => {
                assert(self.alike(other));
                true
            },
            _ => {
                assert(!self.alike(other));
                false
            },
        }
    }

    fn copy(&self) -> (r: Self) {
        match self {
            Some(a) => Some(a.copy()),
            None => None,
        }
    }
}

/// A list with the same items.
pub fn copy_all<T: Record>(items: &Vec<T>) -> (r: Vec<T>)
    ensures
        r@ == items@,
{
    let mut out: Vec<T> = Vec::new();
    let mut i: usize = 0;
    while i < items.len()
        invariant
            i <= items@.len(),
            out@ == items@.take(i as int),
        decreases items@.len() - i,
    {
        out.push(items[i].copy());
        assert(items@.take(i as int).push(items@[i as int]) =~= items@.take(i + 1));
        i = i + 1;
    }
    assert(items@.take(items@.len() as int) =~= items@);
    out
}

/// The copies of the rows that satisfy a condition, in key order.
pub fn rows_where<T: Record, F: Fn(&T) -> bool>(
    table: &Table<T>,
    keep: F,
    wanted: Ghost<spec_fn(T) -> bool>,
) -> (r: Vec<T>)
    requires
        table.wf(),
        forall|row: &T| call_requires(keep, (row,)),
        forall|row: &T, b: bool| call_ensures(keep, (row,), b) ==> b == (wanted@)(*row),
    ensures
        r@ == crate::table::select(table.entries(), wanted@),
{
    let mut out: Vec<T> = Vec::new();
    let mut i: usize = 0;
    let count: usize = table.len();
    assert(table.entries().take(0) =~= Seq::empty());
    while i < count
        invariant
            table.wf(),
            i <= count,
            count == table.entries().len(),
            forall|row: &T| call_requires(keep, (row,)),
            forall|row: &T, b: bool| call_ensures(keep, (row,), b) ==> b == (wanted@)(*row),
            out@ == crate::table::select(table.entries().take(i as int), wanted@),
        decreases count - i,
    {
        assert(table.entries().take(i + 1).drop_last() =~= table.entries().take(i as int));
        let row: &T = table.row(i);
        if keep(row) {
            out.push(row.copy());
        }
        i = i + 1;
    }
    assert(table.entries().take(i as int) =~= table.entries());
    out
}

} // verus!
