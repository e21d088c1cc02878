use vstd::prelude::*;

verus! {

/// Why a store operation or a mutation did not take place.
#[derive(Debug, Clone, Copy, PartialEq, Eq, Structural)]
pub enum StoreError {
    /// No budget (or record) has the requested id.
    NotFound,
    /// A budget with the same name is already stored.
    ConstraintViolation,
    /// The table has used up its id space: no further row can be inserted.
    StorageFull,
    /// The new balance would not fit in the range of a cent count.
    FundsOverflow,
    /// The command handed to a mutation is not the mutation's own kind.
    InvalidCommand,
}

impl StoreError {
    pub open spec fn text(&self) -> Seq<char> {
        match self {
            StoreError::NotFound => "no row matches the given id"@,
            StoreError::ConstraintViolation => "a budget with that name already exists"@,
            StoreError::StorageFull => "no id is left for a new row"@,
            StoreError::FundsOverflow => "the resulting amount is out of range"@,
            StoreError::InvalidCommand => "the command does not fit this operation"@,
        }
    }

    /// A short description for the user.
    pub fn message(&self) -> (r: &'static str)
        ensures
            r@ == self.text(),
    {
        match self {
            StoreError::NotFound => "no row matches the given id",
            StoreError::ConstraintViolation => "a budget with that name already exists",
            StoreError::StorageFull => "no id is left for a new row",
            StoreError::FundsOverflow => "the resulting amount is out of range",
            StoreError::InvalidCommand => "the command does not fit this operation",
        }
    }
}

} // verus!
