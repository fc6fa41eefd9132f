//! Tri-state field updates: leave a column alone, clear it, or assign it.

use vstd::prelude::*;

verus! {

/// What an update does to one nullable column.
#[derive(Debug, Clone, PartialEq, Eq)]
pub enum Patch<T> {
    /// The key was absent: the column keeps its value.
    Unset,
    /// The key was present with null: the column becomes empty.
    Clear,
    /// The key was present with a value: the column takes it.
    Assign(T),
}

/// The state of a field as a decoder reports it: `None` when the key is
/// absent, `Some(None)` when it holds null, `Some(Some(v))` when it holds a value.
pub open spec fn patch_of<T>(field: Option<Option<T>>) -> Patch<T> {
    match field {
        None => Patch::Unset,
        Some(None) => Patch::Clear,
        Some(Some(v)) => Patch::Assign(v),
    }
}

/// The value of a nullable column after a patch.
pub open spec fn patched<T>(p: Patch<T>, current: Option<T>) -> Option<T> {
    match p {
        Patch::Unset => current,
        Patch::Clear => None,
        Patch::Assign(v) => Some(v),
    }
}

/// The value of a column that cannot be null, after an optional new value.
pub open spec fn replaced<T>(update: Option<T>, current: T) -> T {
    match update {
        Some(v) => v,
        None => current,
    }
}

impl<T> Patch<T> {
    /// Translates a decoded field into a patch.
    pub fn from_field(field: Option<Option<T>>) -> (r: Patch<T>)
        ensures
            r == patch_of(field),
    {
        match field {
            None => Patch::Unset,
            Some(None) => Patch::Clear,
            Some(Some(v)) => Patch::Assign(v),
        }
    }

    /// The column's new value.
    pub fn apply(self, current: Option<T>) -> (r: Option<T>)
        ensures
            r == patched(self, current),
    {
        match self {
            Patch::Unset => current,
            Patch::Clear => None,
            Patch::Assign(v) => Some(v),
        }
    }
}

/// The new value of a column that cannot be null.
pub fn replace<T>(update: Option<T>, current: T) -> (r: T)
    ensures
        r == replaced(update, current),
{
    match update {
        Some(v) => v,
        None => current,
    }
}

} // verus!
