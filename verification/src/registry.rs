//! Registry of data sets addressed by sequential integer ids.
use vstd::prelude::*;

use crate::data::DataError;

verus! {

#[derive(Debug, Clone, PartialEq)]
pub enum RegistryError {
    InvalidId(u64),
    LockPoisoned,
    Data(DataError),
}

impl From<DataError> for RegistryError {
    fn from(value: DataError) -> (r: Self)
        ensures
            r == RegistryError::Data(value),
    {
        RegistryError::Data(value)
    }
}

impl vstd::std_specs::convert::FromSpecImpl<DataError> for RegistryError {
    open spec fn obeys_from_spec() -> bool {
        true
    }

    open spec fn from_spec(v: DataError) -> RegistryError {
        RegistryError::Data(v)
    }
}

/// Data sets in registration order; a data set's id is its position.
#[derive(Debug)]
pub struct DatasetRegistry<T> {
    next_id: u64,
    datasets: Vec<T>,
}

impl<T> View for DatasetRegistry<T> {
    type V = Seq<T>;

    closed spec fn view(&self) -> Seq<T> {
        self.datasets@
    }
}

impl<T> DatasetRegistry<T> {
    /// The next id to hand out is the number of data sets registered so far.
    pub closed spec fn wf(&self) -> bool {
        self.next_id as int == self.datasets@.len()
    }

    pub fn new() -> (r: Self)
        ensures
            r.wf(),
            r@ == Seq::<T>::empty(),
    {
        DatasetRegistry { next_id: 0, datasets: Vec::new() }
    }

    /// Number of registered data sets.
    pub fn len(&self) -> (n: usize)
        ensures
            n == self@.len(),
    {
        self.datasets.len()
    }

    /// Store `data` and return its id.
    pub fn register(&mut self, data: T) -> (id: u64)
        requires
            old(self).wf(),
            old(self)@.len() < u64::MAX,
        ensures
            final(self).wf(),
            id == old(self)@.len(),
            final(self)@ == old(self)@.push(data),
    {
        let id = self.next_id;
        self.next_id = self.next_id + 1;
        self.datasets.push(data);
        id
    }

    /// The data set registered under `id`.
    pub fn get(&self, id: u64) -> (r: Result<&T, RegistryError>)
        ensures
            (id as usize) < self@.len() ==> r == Ok::<&T, RegistryError>(&self@[(id as usize) as int]),
            (id as usize) >= self@.len() ==> r == Err::<&T, RegistryError>(RegistryError::InvalidId(id)),
    {
        let idx = id as usize;
        if idx < self.datasets.len() {
            Ok(&self.datasets[idx])
        } else {
            Err(RegistryError::InvalidId(id))
        }
    }
}

/// What `register` stored is what `get` gives back under the returned id,
/// and data sets registered earlier are not disturbed.
pub proof fn register_then_get<T>(before: Seq<T>, after: Seq<T>, data: T, id: u64, other: int)
    requires
        id == before.len(),
        after == before.push(data),
        after.len() <= usize::MAX,
        0 <= other < before.len(),
    ensures
        (id as usize) < after.len(),
        after[(id as usize) as int] == data,
        after[other] == before[other],
{
}

} // verus!
