//! Values with a mathematical model: comparing and copying them is stated
//! over the model, so that contracts never depend on how a value is laid out.

use vstd::prelude::*;

verus! {

/// A value whose meaning is its deep view.
pub trait Model: DeepView + Sized {
    /// Whether the two values have the same model.
    fn same(&self, other: &Self) -> (r: bool)
        ensures
            r == (self.deep_view() == other.deep_view()),
    ;

    /// A fresh value with the same model.
    fn duplicate(&self) -> (r: Self)
        ensures
            r.deep_view() == self.deep_view(),
    ;
}

impl Model for String {
    fn same(&self, other: &Self) -> (r: bool) {
        *self == *other
    }

    fn duplicate(&self) -> (r: Self) {
        self.clone()
    }
}

impl Model for (String, String) {
    fn same(&self, other: &Self) -> (r: bool) {
        self.0 == other.0 && self.1 == other.1
    }

    fn duplicate(&self) -> (r: Self) {
        (self.0.clone(), self.1.clone())
    }
}

/// Whether two vectors hold values with the same models, position by position.
pub fn same_all<T: Model>(a: &Vec<T>, b: &Vec<T>) -> (r: bool)
    ensures
        r == (a.deep_view() == b.deep_view()),
{
    if a.len() != b.len() {
        assert(a.deep_view().len() != b.deep_view().len());
        return false;
    }
    let mut i: usize = 0;
    while i < a.len()
        invariant
            0 <= i <= a.len(),
            a.len() == b.len(),
            forall|j: int| 0 <= j < i ==> a@[j].deep_view() == b@[j].deep_view(),
        decreases a.len() - i,
    {
        if !a[i].same(&b[i]) {
            assert(a.deep_view()[i as int] != b.deep_view()[i as int]);
            return false;
        }
        i = i + 1;
    }
    assert(a.deep_view() =~= b.deep_view());
    true
}

/// A fresh vector whose values have the same models, in the same order.
pub fn duplicate_all<T: Model>(a: &Vec<T>) -> (r: Vec<T>)
    ensures
        r.deep_view() == a.deep_view(),
        r.len() == a.len(),
        forall|j: int| 0 <= j < a.len() ==> r@[j].deep_view() == a@[j].deep_view(),
{
    let mut out: Vec<T> = Vec::new();
    let mut i: usize = 0;
    while i < a.len()
        invariant
            0 <= i <= a.len(),
            out.len() == i,
            forall|j: int| 0 <= j < i ==> out@[j].deep_view() == a@[j].deep_view(),
        decreases a.len() - i,
    {
        out.push(a[i].duplicate());
        i = i + 1;
    }
    assert(out.deep_view() =~= a.deep_view());
    out
}

} // verus!
