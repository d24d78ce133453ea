//! An array of fixed length, and the error for a wrong number of items.

use vstd::prelude::*;

verus! {

/// Exactly `N` items in a row.
#[derive(Copy, Clone, Hash, Eq, PartialEq, Ord, PartialOrd, Debug)]
pub struct Array<T, const N: usize> {
    array: [T; N],
}

impl<T, const N: usize> View for Array<T, N> {
    type V = Seq<T>;

    closed spec fn view(&self) -> Seq<T> {
        self.array@
    }
}

/// A number of items other than the one asked for.
#[derive(Debug, Clone, Copy, PartialEq, Eq, Structural)]
pub struct LengthError {
    pub expected: usize,
    pub got: usize,
}

impl LengthError {
    pub fn new(expected: usize, got: usize) -> (r: Self)
        ensures
            r.expected == expected,
            r.got == got,
    {
        Self { expected, got }
    }

    /// The error for `got` where as many items as `expected` holds were asked for.
    pub fn from_slices<T, U>(expected: &[T], got: &[U]) -> (r: Self)
        ensures
            r.expected == expected@.len(),
            r.got == got@.len(),
    {
        Self::new(expected.len(), got.len())
    }
}

/// What [`Array::try_from`] gives for a sequence of items: the items themselves
/// if there are `n` of them, else the two numbers.
pub open spec fn exactly<T>(items: Seq<T>, n: nat) -> Result<Seq<T>, LengthError> {
    if items.len() == n {
        Ok(items)
    } else {
        Err(LengthError { expected: n as usize, got: items.len() as usize })
    }
}

/// Calls the standard library's conversion of a `Vec<T>` into `[T; N]`. What is
/// claimed of it, and not proved: a vector of exactly `N` items gives the array
/// of those items in their order, and any other vector comes back unchanged as
/// the error.
#[verifier::external_body]
fn vec_into_array<T, const N: usize>(v: Vec<T>) -> (r: Result<[T; N], Vec<T>>)
    ensures
        v@.len() == N ==> r is Ok && r->Ok_0@ == v@,
        v@.len() != N ==> r is Err && r->Err_0@ == v@,
{
    v.try_into()
}

impl<T, const N: usize> Array<T, N> {
    pub fn new(array: [T; N]) -> (r: Self)
        ensures
            r@ == array@,
    {
        Self { array }
    }

    /// The array of the given items, if there are exactly `N` of them.
    pub fn try_from(value: Vec<T>) -> (r: Result<Self, LengthError>)
        ensures
            match r {
                Ok(array) => exactly(value@, N as nat) == Ok::<Seq<T>, LengthError>(array@),
                Err(error) => exactly(value@, N as nat) == Err::<Seq<T>, LengthError>(error),
            },
    {
        match vec_into_array::<T, N>(value) {
            Ok(array) => Ok(Self { array }),
            Err(vec) => Err(LengthError::new(N, vec.len())),
        }
    }

    /// The same as [`Array::try_from`].
    pub fn from_iter(iter: Vec<T>) -> (r: Result<Self, LengthError>)
        ensures
            match r {
                Ok(array) => exactly(iter@, N as nat) == Ok::<Seq<T>, LengthError>(array@),
                Err(error) => exactly(iter@, N as nat) == Err::<Seq<T>, LengthError>(error),
            },
    {
        Self::try_from(iter)
    }

    /// The number of items, which is `N`.
    pub fn len(&self) -> (n: usize)
        ensures
            n == N,
            self@.len() == N,
    {
        proof {
            self.lemma_len();
        }
        N
    }

    /// An array holds exactly `N` items.
    pub proof fn lemma_len(self)
        ensures
            self@.len() == N,
    {
    }

    /// Two arrays that hold the same items in the same order are the same array.
    pub proof fn lemma_view_injective(self, other: Self)
        requires
            self@ == other@,
        ensures
            self == other,
    {
        assert(self.array =~= other.array);
    }

    /// The array inside.
    pub fn as_array(&self) -> (r: &[T; N])
        ensures
            r@ == self@,
    {
        &self.array
    }

    /// The item at `index`, if `index` is below `N`.
    pub fn get(&self, index: usize) -> (r: Option<&T>)
        ensures
            r == if index < N {
                Some(&self@[index as int])
            } else {
                None
            },
    {
        if index < N {
            Some(&self.array[index])
        } else {
            None
        }
    }

    /// The item at `index`, to be changed in place, if `index` is below `N`.
    pub fn get_mut(&mut self, index: usize) -> (r: Option<&mut T>)
        ensures
            match r {
                Some(item) => index < N && *item == old(self)@[index as int] && final(self)@ == old(
                    self,
                )@.update(index as int, *final(item)),
                None => index >= N && final(self)@ == old(self)@,
            },
    {
        if index < N {
            Some(&mut self.array[index])
        } else {
            None
        }
    }

    /// Puts `value` at `index` and leaves the other items as they are.
    pub fn set(&mut self, index: usize, value: T)
        requires
            index < N,
        ensures
            final(self)@ == old(self)@.update(index as int, value),
    {
        self.array[index] = value;
    }
}

impl<T: Copy, const N: usize> Array<T, N> {
    /// The array of what `f` makes of each item, in the same order.
    pub fn map<U, F: Fn(T) -> U>(self, f: F) -> (r: Array<U, N>)
        requires
            forall|i: int| 0 <= i < N ==> call_requires(f, (#[trigger] self@[i],)),
        ensures
            r@.len() == N,
            forall|i: int| 0 <= i < N ==> call_ensures(f, (self@[i],), #[trigger] r@[i]),
    {
        let mut out: Vec<U> = Vec::new();
        let mut i: usize = 0;
        while i < N
            invariant
                i <= N,
                self@.len() == N,
                out@.len() == i,
                forall|k: int| 0 <= k < N ==> call_requires(f, (#[trigger] self@[k],)),
                forall|k: int| 0 <= k < i ==> call_ensures(f, (self@[k],), #[trigger] out@[k]),
            decreases N - i,
        {
            let item = self.array[i];
            out.push(f(item));
            i = i + 1;
        }
        match vec_into_array::<U, N>(out) {
            Ok(array) => Array { array },
            Err(_) => vstd::pervasive::unreached(),
        }
    }

    /// The items in their order.
    pub fn to_vec(&self) -> (v: Vec<T>)
        ensures
            v@ == self@,
    {
        let mut v: Vec<T> = Vec::new();
        let mut i: usize = 0;
        while i < N
            invariant
                i <= N,
                v@ == self@.take(i as int),
                self@.len() == N,
            decreases N - i,
        {
            v.push(self.array[i]);
            assert(self@.take(i + 1) =~= self@.take(i as int).push(self@[i as int]));
            i = i + 1;
        }
        assert(self@.take(N as int) =~= self@);
        v
    }
}

} // verus!
