//! The changes that a deploy can ask of one key, and what each makes of the
//! value that the key holds.

use crate::key::{Key, Value};
use vstd::prelude::*;

verus! {

/// Why the state store turned a request down.
#[derive(Clone, Copy, Debug, PartialEq, Eq)]
pub enum StorageError {
    /// A change needs the current value of a key that holds none.
    KeyNotFound(Key),
    /// A change does not fit the kind of value that the key holds.
    TypeMismatch(Key),
    /// The store has no root hash left to name a new snapshot.
    RootsExhausted,
}

/// One pending change to the value under one key.
#[derive(Clone, Copy, Debug, PartialEq, Eq)]
pub enum Transform {
    /// Leave the key as it is.
    Identity,
    /// Put this value under the key, whatever it held.
    Write(Value),
    /// Add this number to the number under the key, wrapping on overflow.
    AddInt32(i32),
}

/// The sum of `a` and `b` in 32-bit two's complement.
pub open spec fn wrapped_sum(a: i32, b: i32) -> i32 {
    let sum = a + b;
    if sum > i32::MAX {
        (sum - 0x1_0000_0000) as i32
    } else if sum < i32::MIN {
        (sum + 0x1_0000_0000) as i32
    } else {
        sum as i32
    }
}

impl Transform {
    /// What the key `key` holds after this change, given that it held
    /// `current` (`None`: nothing). An addition needs a number to add to.
    pub open spec fn applied(self, key: Key, current: Option<Value>) -> Result<
        Option<Value>,
        StorageError,
    > {
        match self {
            Transform::Identity => Ok(current),
            Transform::Write(value) => Ok(Some(value)),
            Transform::AddInt32(amount) => match current {
                Some(Value::Int32(number)) => Ok(Some(Value::Int32(wrapped_sum(number, amount)))),
                Some(_) => Err(StorageError::TypeMismatch(key)),
                None => Err(StorageError::KeyNotFound(key)),
            },
        }
    }

    /// Applies this change to what `key` holds.
    pub fn apply(&self, key: Key, current: Option<Value>) -> (outcome: Result<
        Option<Value>,
        StorageError,
    >)
        ensures
            outcome == self.applied(key, current),
    {
        match self {
            Transform::Identity => Ok(current),
            Transform::Write(value) => Ok(Some(*value)),
            Transform::AddInt32(amount) => match current {
                Some(Value::Int32(number)) => Ok(Some(Value::Int32(number.wrapping_add(*amount)))),
                Some(_) => Err(StorageError::TypeMismatch(key)),
                None => Err(StorageError::KeyNotFound(key)),
            },
        }
    }
}

} // verus!
