use vstd::prelude::*;
use vstd::std_specs::cmp::{PartialEqSpec, PartialOrdSpec};

verus! {

/// A cell that owns exactly one value and hands out read and write views of it.
///
/// The cell is a single field around the value: no header, no indirection,
/// no bookkeeping of how many views are alive. Who may write, and when, is
/// settled where the views are taken: a write view borrows the cell
/// exclusively, so two writers can never reach the same storage at once. To
/// let separate parts of a program write separate elements of a collection,
/// turn the cell into one cell per element (`as_slice_of_cells`,
/// `as_array_of_cells`) and hand each part its own cells; gathering them
/// back (`from_slice_of_cells`, `from_array_of_cells`) gives the collection
/// with every write in place.
///
/// Equality, ordering, hashing, default construction and cloning are those
/// of the held value.
#[derive(Eq, Ord, Hash)]
pub struct SuperCell<T> {
    value: T,
}

impl<T> View for SuperCell<T> {
    type V = T;

    /// The value held by the cell.
    closed spec fn view(&self) -> T {
        self.value
    }
}

impl<T> SuperCell<T> {
    /// Wraps `value` in a new cell.
    pub fn new(value: T) -> (r: Self)
        ensures
            r@ == value,
    {
        SuperCell { value }
    }

    /// Gives up the cell and returns the value it held.
    pub fn into_inner(self) -> (r: T)
        ensures
            r == self@,
    {
        self.value
    }

    /// A read view of the held value.
    pub fn get(&self) -> (r: &T)
        ensures
            *r == self@,
    {
        &self.value
    }

    /// A write view of the held value: whatever the caller leaves behind it
    /// is what the cell holds once the view is given up.
    pub fn get_mut(&mut self) -> (r: &mut T)
        ensures
            *r == old(self)@,
            final(self)@ == *final(r),
    {
        &mut self.value
    }
}

/// The values held by a sequence of cells, in order.
pub open spec fn held_values<T>(cells: Seq<SuperCell<T>>) -> Seq<T> {
    cells.map_values(|c: SuperCell<T>| c@)
}

/// Writing through the cell at one position changes the value held there
/// and no other.
pub proof fn lemma_element_write_is_local<T>(cells: Seq<SuperCell<T>>, i: int, c: SuperCell<T>)
    requires
        0 <= i < cells.len(),
    ensures
        held_values(cells.update(i, c)) == held_values(cells).update(i, c@),
{
    assert(held_values(cells.update(i, c)) =~= held_values(cells).update(i, c@));
}

/// Once one value has been written through every element cell, the values
/// held are that value at every position.
pub proof fn lemma_uniform_element_writes<T>(cells: Seq<SuperCell<T>>, y: T)
    requires
        forall|i: int| 0 <= i < cells.len() ==> cells[i]@ == y,
    ensures
        held_values(cells) == Seq::new(cells.len(), |i: int| y),
{
    assert(held_values(cells) =~= Seq::new(cells.len(), |i: int| y));
}

impl<T> SuperCell<Vec<T>> {
    /// Turns a cell holding a vector into a vector of cells, one per element,
    /// in the same order. The elements are moved, never cloned.
    pub fn as_slice_of_cells(self) -> (r: Vec<SuperCell<T>>)
        ensures
            held_values(r@) == self@@,
    {
        let mut rest = self.value;
        let ghost all = rest@;
        let mut reversed: Vec<T> = Vec::new();
        while rest.len() > 0
            invariant
                all == rest@ + reversed@.reverse(),
            decreases rest.len(),
        {
            let x = rest.pop().unwrap();
            reversed.push(x);
        }
        let mut cells: Vec<SuperCell<T>> = Vec::new();
        while reversed.len() > 0
            invariant
                all == held_values(cells@) + reversed@.reverse(),
            decreases reversed.len(),
        {
            let x = reversed.pop().unwrap();
            cells.push(SuperCell::new(x));
        }
        cells
    }

    /// Gathers a vector of cells back into one cell holding the vector of
    /// their values, in the same order.
    pub fn from_slice_of_cells(cells: Vec<SuperCell<T>>) -> (r: Self)
        ensures
            r@@ == held_values(cells@),
    {
        let mut rest = cells;
        let ghost all = held_values(rest@);
        let mut reversed: Vec<T> = Vec::new();
        while rest.len() > 0
            invariant
                all == held_values(rest@) + reversed@.reverse(),
            decreases rest.len(),
        {
            let c = rest.pop().unwrap();
            reversed.push(c.into_inner());
        }
        let mut values: Vec<T> = Vec::new();
        while reversed.len() > 0
            invariant
                all == values@ + reversed@.reverse(),
            decreases reversed.len(),
        {
            let x = reversed.pop().unwrap();
            values.push(x);
        }
        SuperCell::new(values)
    }
}

/// Relies on `<[T; N]>::map`: the result has, at each position, what `f`
/// returned for the element at that position. The closures handed to it here
/// capture nothing, so every call is made under the same `f`.
pub assume_specification<E, const LEN: usize, F, U>[ <[E; LEN]>::map::<F, U> ](a: [E; LEN], f: F) -> (r: [U; LEN])
    where
        F: FnMut(E) -> U,
    requires
        forall|i: int| 0 <= i < LEN ==> f.requires((a@[i],)),
    ensures
        forall|i: int| 0 <= i < LEN ==> f.ensures((a@[i],), #[trigger] r@[i]),
;

impl<T, const N: usize> SuperCell<[T; N]> {
    /// Turns a cell holding an array into an array of cells, one per element,
    /// in the same order. The elements are moved, never cloned.
    pub fn as_array_of_cells(self) -> (r: [SuperCell<T>; N])
        ensures
            held_values(r@) == self@@,
    {
        let r = self.value.map(|x: T| -> (c: SuperCell<T>)
            ensures
                c@ == x,
            { SuperCell::new(x) });
        assert(held_values(r@) =~= self@@);
        r
    }

    /// Gathers an array of cells back into one cell holding the array of
    /// their values, in the same order.
    pub fn from_array_of_cells(cells: [SuperCell<T>; N]) -> (r: Self)
        ensures
            r@@ == held_values(cells@),
    {
        let values = cells.map(|c: SuperCell<T>| -> (x: T)
            ensures
                x == c@,
            { c.into_inner() });
        assert(values@ =~= held_values(cells@));
        SuperCell::new(values)
    }
}

impl<T: PartialEq> PartialEq for SuperCell<T> {
    fn eq(&self, other: &Self) -> (r: bool) {
        self.value.eq(&other.value)
    }
}

impl<T: PartialEq> vstd::std_specs::cmp::PartialEqSpecImpl for SuperCell<T> {
    open spec fn obeys_eq_spec() -> bool {
        <T as PartialEqSpec>::obeys_eq_spec()
    }

    open spec fn eq_spec(&self, other: &Self) -> bool {
        self@.eq_spec(&other@)
    }
}

impl<T: PartialOrd> PartialOrd for SuperCell<T> {
    fn partial_cmp(&self, other: &Self) -> (r: Option<core::cmp::Ordering>) {
        self.value.partial_cmp(&other.value)
    }
}

impl<T: PartialOrd> vstd::std_specs::cmp::PartialOrdSpecImpl for SuperCell<T> {
    open spec fn obeys_partial_cmp_spec() -> bool {
        <T as PartialOrdSpec>::obeys_partial_cmp_spec()
    }

    open spec fn partial_cmp_spec(&self, other: &Self) -> Option<core::cmp::Ordering> {
        self@.partial_cmp_spec(&other@)
    }
}

/// Equality and ordering of two cells are those of the values they hold.
pub proof fn lemma_comparison_delegates<T: PartialOrd>(a: SuperCell<T>, b: SuperCell<T>)
    ensures
        <SuperCell<T> as PartialEqSpec>::obeys_eq_spec() == <T as PartialEqSpec>::obeys_eq_spec(),
        a.eq_spec(&b) == a@.eq_spec(&b@),
        <SuperCell<T> as PartialOrdSpec>::obeys_partial_cmp_spec()
            == <T as PartialOrdSpec>::obeys_partial_cmp_spec(),
        a.partial_cmp_spec(&b) == a@.partial_cmp_spec(&b@),
{
}

impl<T: Default> Default for SuperCell<T> {
    fn default() -> (r: Self)
        ensures
            call_ensures(T::default, (), r@),
    {
        SuperCell::new(T::default())
    }
}

impl<T: Clone> Clone for SuperCell<T> {
    fn clone(&self) -> (r: Self)
        ensures
            cloned::<T>(self@, r@),
    {
        SuperCell::new(self.value.clone())
    }
}

} // verus!
