//! What can go wrong when a row becomes a record.

use vstd::prelude::*;

verus! {

/// The timestamp columns of a row.
#[derive(Debug, Clone, Copy, PartialEq, Eq, Structural)]
pub enum TimestampField {
    CreatedAt,
    UpdatedAt,
    DeletedAt,
}

/// A timestamp of a row does not match the fixed pattern. `field` is the
/// first such column, in the order created, updated, deleted.
#[derive(Debug, Clone, Copy, PartialEq, Eq, Structural)]
pub struct MappingError {
    pub field: TimestampField,
}

impl MappingError {
    /// Whether `text` is the sentence that names the column of `self`.
    pub open spec fn message_spec(&self, text: Seq<char>) -> bool {
        text == match self.field {
            TimestampField::CreatedAt => "created_at does not match YYYY-MM-DD HH:MM:SS"@,
            TimestampField::UpdatedAt => "updated_at does not match YYYY-MM-DD HH:MM:SS"@,
            TimestampField::DeletedAt => "deleted_at does not match YYYY-MM-DD HH:MM:SS"@,
        }
    }

    /// A sentence for the user that names the column.
    pub fn message(&self) -> (text: String)
        ensures
            self.message_spec(text@),
    {
        match self.field {
            TimestampField::CreatedAt => String::from_str(
                "created_at does not match YYYY-MM-DD HH:MM:SS",
            ),
            TimestampField::UpdatedAt => String::from_str(
                "updated_at does not match YYYY-MM-DD HH:MM:SS",
            ),
            TimestampField::DeletedAt => String::from_str(
                "deleted_at does not match YYYY-MM-DD HH:MM:SS",
            ),
        }
    }
}

} // verus!
