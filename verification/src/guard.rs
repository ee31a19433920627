use vstd::prelude::*;

use crate::errors::Error;
use crate::store::Students;

verus! {

/// The create guard: passes exactly when no record with this identity exists.
pub fn ensure_absent(store: &Students, key: &[u8; 32]) -> (r: Result<(), Error>)
    ensures
        match r {
            Ok(_) => !store@.contains_key(key@),
            Err(e) => store@.contains_key(key@) && e == Error::StudentExist,
        },
{
    if store.contains(key) {
        Err(Error::StudentExist)
    } else {
        Ok(())
    }
}

/// The existence guard: hands back the ownership entry, or fails when the
/// identity has no current owner.
pub fn ensure_present(store: &Students, key: &[u8; 32]) -> (r: Result<(u64, u64), Error>)
    requires
        store.wf(),
    ensures
        match r {
            Ok(e) => store@.contains_key(key@) && store@[key@] == e,
            Err(e) => !store@.contains_key(key@) && e == Error::StudentNotExist,
        },
{
    match store.get(key) {
        Some(e) => Ok(e),
        None => Err(Error::StudentNotExist),
    }
}

/// The ownership guard: passes exactly when the caller owns the entry.
pub fn ensure_owner(entry: (u64, u64), caller: u64) -> (r: Result<(), Error>)
    ensures
        match r {
            Ok(_) => entry.0 == caller,
            Err(e) => entry.0 != caller && e == Error::NotStudentOwner,
        },
{
    if entry.0 == caller {
        Ok(())
    } else {
        Err(Error::NotStudentOwner)
    }
}

/// The self-transfer guard: passes exactly when sender and recipient differ.
pub fn ensure_distinct(from: u64, to: u64) -> (r: Result<(), Error>)
    ensures
        match r {
            Ok(_) => from != to,
            Err(e) => from == to && e == Error::TransferToSelf,
        },
{
    if from == to {
        Err(Error::TransferToSelf)
    } else {
        Ok(())
    }
}

} // verus!
