use vstd::prelude::*;

verus! {

/// How a store starts out, given the outcome of reading its backing file.
pub enum LoadStep {
    /// The file was read: its bytes are decoded into the value.
    Decode(Vec<u8>),
    /// The file could not be read, for whatever reason: a fresh value is
    /// produced and persisted before the store is handed out.
    Seed,
}

/// Any failure to read the backing file leads to seeding; bytes that were
/// read are always decoded, so an existing file is never reseeded.
pub fn plan_load<E>(read: Result<Vec<u8>, E>) -> (r: LoadStep)
    ensures
        read is Err <==> r is Seed,
        read is Ok ==> r == LoadStep::Decode(read->Ok_0),
{
    match read {
        Ok(bytes) => LoadStep::Decode(bytes),
        Err(_) => LoadStep::Seed,
    }
}

/// A freshly produced value becomes the store's value only once it has been
/// persisted; a failed write fails the construction.
pub fn seeded<T, E>(fresh: T, persisted: Result<(), E>) -> (r: Result<T, E>)
    ensures
        persisted is Ok ==> r == Ok::<T, E>(fresh),
        persisted is Err ==> r == Err::<T, E>(persisted->Err_0),
{
    match persisted {
        Ok(()) => Ok(fresh),
        Err(e) => Err(e),
    }
}

/// Installs `new_data` in `slot` only if it was persisted first, so that the
/// value in memory never runs ahead of the file. On a failed write the slot
/// keeps its value and the error is handed back.
pub fn commit<T, E>(slot: &mut T, new_data: T, persisted: Result<(), E>) -> (r: Result<(), E>)
    ensures
        persisted is Ok ==> r is Ok && *final(slot) == new_data,
        persisted is Err ==> r == Err::<(), E>(persisted->Err_0) && *final(slot) == *old(slot),
{
    match persisted {
        Ok(()) => {
            *slot = new_data;
            Ok(())
        },
        Err(e) => Err(e),
    }
}

} // verus!
