//! Suppliers, and how a persisted row becomes one.

use crate::domain::mapping::{MappingError, TimestampField};
use crate::infra::models::{SupplierRow, SupplierRowView};
use crate::timestamp::{parse_timestamp, timestamp_of_text, DateTime};
use vstd::prelude::*;
use vstd::std_specs::convert::TryFromSpecImpl;

verus! {

/// A supplier of products. A supplier with `deleted_at` set is deleted: it
/// stays in the store and no listing shows it.
#[derive(Debug, PartialEq, Eq)]
pub struct Supplier {
    pub id: i32,
    pub name: String,
    pub created_at: DateTime,
    pub updated_at: DateTime,
    pub deleted_at: Option<DateTime>,
}

/// What a `Supplier` holds, as mathematical values.
pub struct SupplierView {
    pub id: i32,
    pub name: Seq<char>,
    pub created_at: DateTime,
    pub updated_at: DateTime,
    pub deleted_at: Option<DateTime>,
}

impl View for Supplier {
    type V = SupplierView;

    open spec fn view(&self) -> SupplierView {
        SupplierView {
            id: self.id,
            name: self.name@,
            created_at: self.created_at,
            updated_at: self.updated_at,
            deleted_at: self.deleted_at,
        }
    }
}

impl Clone for Supplier {
    fn clone(&self) -> (r: Self)
        ensures
            r == *self,
    {
        Supplier {
            id: self.id,
            name: self.name.clone(),
            created_at: self.created_at,
            updated_at: self.updated_at,
            deleted_at: self.deleted_at,
        }
    }
}

impl Supplier {
    /// Whether the timestamps of the supplier are dates and times of the
    /// calendar.
    pub open spec fn is_valid(&self) -> bool {
        &&& self.created_at.is_valid()
        &&& self.updated_at.is_valid()
        &&& self.deleted_at is Some ==> self.deleted_at.unwrap().is_valid()
    }

    /// Whether the timestamps of the supplier are dates and times of the
    /// calendar.
    pub fn check(&self) -> (r: bool)
        ensures
            r == self.is_valid(),
    {
        self.created_at.check() && self.updated_at.check() && match self.deleted_at {
            Some(t) => t.check(),
            None => true,
        }
    }
}

/// The supplier that a row stands for: the row's id and name, and its three
/// timestamps parsed. The first timestamp that does not parse, in the order
/// created, updated, deleted, fails the whole row.
pub open spec fn supplier_of_row(row: SupplierRowView) -> Result<SupplierView, MappingError> {
    match timestamp_of_text(row.created_at) {
        None => Err(MappingError { field: TimestampField::CreatedAt }),
        Some(created_at) => match timestamp_of_text(row.updated_at) {
            None => Err(MappingError { field: TimestampField::UpdatedAt }),
            Some(updated_at) => match row.deleted_at {
                None => Ok(
                    SupplierView {
                        id: row.id,
                        name: row.name,
                        created_at,
                        updated_at,
                        deleted_at: None,
                    },
                ),
                Some(text) => match timestamp_of_text(text) {
                    None => Err(MappingError { field: TimestampField::DeletedAt }),
                    Some(deleted_at) => Ok(
                        SupplierView {
                            id: row.id,
                            name: row.name,
                            created_at,
                            updated_at,
                            deleted_at: Some(deleted_at),
                        },
                    ),
                },
            },
        },
    }
}

impl TryFrom<SupplierRow> for Supplier {
    type Error = MappingError;

    /// Maps a persisted row to a supplier.
    fn try_from(row: SupplierRow) -> (r: Result<Supplier, MappingError>)
        ensures
            match supplier_of_row(row@) {
                Ok(supplier) => r is Ok && r.unwrap()@ == supplier,
                Err(e) => r == Err::<Supplier, MappingError>(e),
            },
            r is Ok ==> r.unwrap().is_valid(),
    {
        let created_at = match parse_timestamp(row.created_at.as_str()) {
            Some(t) => t,
            None => {
                return Err(MappingError { field: TimestampField::CreatedAt });
            },
        };
        let updated_at = match parse_timestamp(row.updated_at.as_str()) {
            Some(t) => t,
            None => {
                return Err(MappingError { field: TimestampField::UpdatedAt });
            },
        };
        let deleted_at = match &row.deleted_at {
            None => None,
            Some(text) => match parse_timestamp(text.as_str()) {
                Some(t) => Some(t),
                None => {
                    return Err(MappingError { field: TimestampField::DeletedAt });
                },
            },
        };
        Ok(Supplier { id: row.id, name: row.name, created_at, updated_at, deleted_at })
    }
}

impl TryFromSpecImpl<SupplierRow> for Supplier {
    open spec fn obeys_try_from_spec() -> bool {
        true
    }

    open spec fn try_from_spec(row: SupplierRow) -> Result<Supplier, MappingError> {
        match supplier_of_row(row@) {
            Err(e) => Err(e),
            Ok(supplier) => Ok(
                Supplier {
                    id: row.id,
                    name: row.name,
                    created_at: supplier.created_at,
                    updated_at: supplier.updated_at,
                    deleted_at: supplier.deleted_at,
                },
            ),
        }
    }
}

} // verus!
