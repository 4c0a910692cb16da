use vstd::prelude::*;
use vstd::std_specs::cmp::PartialEqSpec;

verus! {

/// Removal of the first element that satisfies a test, from a sequence of
/// elements kept in order.
pub trait RemoveElem<T: PartialEq>: Sized {
    /// The elements, in order.
    spec fn elems(&self) -> Seq<T>;

    /// Removes and returns the first element on which `predicate` holds; the
    /// others keep their order. `None`, and nothing changes, when it holds
    /// on none.
    fn remove_elem<F: Fn(&T) -> bool>(&mut self, predicate: F) -> (r: Option<T>)
        requires
            forall|x: &T| #[trigger] predicate.requires((x,)),
        ensures
            match r {
                Some(e) => exists|i: int|
                    0 <= i < old(self).elems().len() && old(self).elems()[i] == e
                        && predicate.ensures((&old(self).elems()[i],), true) && (forall|j: int|
                        0 <= j < i ==> predicate.ensures((&old(self).elems()[j],), false))
                        && final(self).elems() == old(self).elems().remove(i),
                None => final(self).elems() == old(self).elems() && forall|j: int|
                    0 <= j < old(self).elems().len() ==> predicate.ensures(
                        (&old(self).elems()[j],),
                        false,
                    ),
            },
    ;

    /// Removes and returns the first element equal to `value`; the others
    /// keep their order. `None`, and nothing changes, when none is equal.
    fn remove_value(&mut self, value: &T) -> (r: Option<T>)
        ensures
            match r {
                Some(e) => exists|i: int|
                    0 <= i < old(self).elems().len() && old(self).elems()[i] == e
                        && final(self).elems() == old(self).elems().remove(i) && (
                    T::obeys_eq_spec() ==> {
                        &&& e.eq_spec(value)
                        &&& forall|j: int| 0 <= j < i ==> !old(self).elems()[j].eq_spec(value)
                    }),
                None => final(self).elems() == old(self).elems() && (T::obeys_eq_spec()
                    ==> forall|j: int|
                    0 <= j < old(self).elems().len() ==> !old(self).elems()[j].eq_spec(value)),
            },
    ;
}

impl<T: PartialEq> RemoveElem<T> for Vec<T> {
    open spec fn elems(&self) -> Seq<T> {
        self@
    }

    fn remove_elem<F: Fn(&T) -> bool>(&mut self, predicate: F) -> (r: Option<T>) {
        let mut i: usize = 0;
        while i < self.len()
            invariant
                i <= self@.len(),
                *self == *old(self),
                forall|x: &T| #[trigger] predicate.requires((x,)),
                forall|j: int| 0 <= j < i ==> predicate.ensures((&self@[j],), false),
            decreases self@.len() - i,
        {
            let hit = predicate(&self[i]);
            if hit {
                let e = self.remove(i);
                assert(old(self).elems()[i as int] == e);
                assert(predicate.ensures((&old(self).elems()[i as int],), true));
                assert(self.elems() == old(self).elems().remove(i as int));
                return Some(e);
            }
            i = i + 1;
        }
        None
    }

    fn remove_value(&mut self, value: &T) -> (r: Option<T>) {
        let mut i: usize = 0;
        while i < self.len()
            invariant
                i <= self@.len(),
                *self == *old(self),
                T::obeys_eq_spec() ==> forall|j: int| 0 <= j < i ==> !self@[j].eq_spec(value),
            decreases self@.len() - i,
        {
            let hit = self[i].eq(value);
            if hit {
                let e = self.remove(i);
                assert(old(self).elems()[i as int] == e);
                assert(self.elems() == old(self).elems().remove(i as int));
                return Some(e);
            }
            i = i + 1;
        }
        None
    }
}

} // verus!
