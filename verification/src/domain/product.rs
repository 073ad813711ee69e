//! Products, and how a persisted row becomes one.

use crate::domain::mapping::{MappingError, TimestampField};
use crate::infra::models::{ProductRow, ProductRowView};
use crate::infra::models::{clone_optional, optional_text};
use crate::timestamp::{parse_timestamp, timestamp_of_text, DateTime};
use vstd::prelude::*;
use vstd::std_specs::convert::TryFromSpecImpl;

verus! {

/// A product that is kept in stock. A product with `deleted_at` set is
/// deleted: it stays in the store and no listing shows it.
#[derive(Debug, PartialEq, Eq)]
pub struct Product {
    pub id: i32,
    pub name: String,
    pub unity: Option<String>,
    pub brand: Option<String>,
    pub min_stock: i32,
    pub observation: Option<String>,
    pub created_at: DateTime,
    pub updated_at: DateTime,
    pub deleted_at: Option<DateTime>,
}

/// What a `Product` holds, as mathematical values.
pub struct ProductView {
    pub id: i32,
    pub name: Seq<char>,
    pub unity: Option<Seq<char>>,
    pub brand: Option<Seq<char>>,
    pub min_stock: i32,
    pub observation: Option<Seq<char>>,
    pub created_at: DateTime,
    pub updated_at: DateTime,
    pub deleted_at: Option<DateTime>,
}

impl View for Product {
    type V = ProductView;

    open spec fn view(&self) -> ProductView {
        ProductView {
            id: self.id,
            name: self.name@,
            unity: optional_text(self.unity),
            brand: optional_text(self.brand),
            min_stock: self.min_stock,
            observation: optional_text(self.observation),
            created_at: self.created_at,
            updated_at: self.updated_at,
            deleted_at: self.deleted_at,
        }
    }
}

impl Clone for Product {
    fn clone(&self) -> (r: Self)
        ensures
            r == *self,
    {
        Product {
            id: self.id,
            name: self.name.clone(),
            unity: clone_optional(&self.unity),
            brand: clone_optional(&self.brand),
            min_stock: self.min_stock,
            observation: clone_optional(&self.observation),
            created_at: self.created_at,
            updated_at: self.updated_at,
            deleted_at: self.deleted_at,
        }
    }
}

impl Product {
    /// Whether the timestamps of the product are dates and times of the
    /// calendar.
    pub open spec fn is_valid(&self) -> bool {
        &&& self.created_at.is_valid()
        &&& self.updated_at.is_valid()
        &&& self.deleted_at is Some ==> self.deleted_at.unwrap().is_valid()
    }

    /// Whether the timestamps of the product are dates and times of the
    /// calendar.
    pub fn check(&self) -> (r: bool)
        ensures
            r == self.is_valid(),
    {
        self.created_at.check() && self.updated_at.check() && match self.deleted_at {
            Some(t) => t.check(),
            None => true,
        }
    }
}

/// The product that a row stands for: the row's id, name and further
/// fields, and its three timestamps parsed. The first timestamp that does not parse, in the order
/// created, updated, deleted, fails the whole row.
pub open spec fn product_of_row(row: ProductRowView) -> Result<ProductView, MappingError> {
    match timestamp_of_text(row.created_at) {
        None => Err(MappingError { field: TimestampField::CreatedAt }),
        Some(created_at) => match timestamp_of_text(row.updated_at) {
            None => Err(MappingError { field: TimestampField::UpdatedAt }),
            Some(updated_at) => match row.deleted_at {
                None => Ok(
                    ProductView {
                        id: row.id,
                        name: row.name,
                        unity: row.unity,
                        brand: row.brand,
                        min_stock: row.min_stock,
                        observation: row.observation,
                        created_at,
                        updated_at,
                        deleted_at: None,
                    },
                ),
                Some(text) => match timestamp_of_text(text) {
                    None => Err(MappingError { field: TimestampField::DeletedAt }),
                    Some(deleted_at) => Ok(
                        ProductView {
                            id: row.id,
                            name: row.name,
                            unity: row.unity,
                            brand: row.brand,
                            min_stock: row.min_stock,
                            observation: row.observation,
                            created_at,
                            updated_at,
                            deleted_at: Some(deleted_at),
                        },
                    ),
                },
            },
        },
    }
}

impl TryFrom<ProductRow> for Product {
    type Error = MappingError;

    /// Maps a persisted row to a product.
    fn try_from(row: ProductRow) -> (r: Result<Product, MappingError>)
        ensures
            match product_of_row(row@) {
                Ok(product) => r is Ok && r.unwrap()@ == product,
                Err(e) => r == Err::<Product, MappingError>(e),
            },
            r is Ok ==> r.unwrap().is_valid(),
    {
        let created_at = match parse_timestamp(row.created_at.as_str()) {
            Some(t) => t,
            None => {
                return Err(MappingError { field: TimestampField::CreatedAt });
            },
        };
        let updated_at = match parse_timestamp(row.updated_at.as_str()) {
            Some(t) => t,
            None => {
                return Err(MappingError { field: TimestampField::UpdatedAt });
            },
        };
        let deleted_at = match &row.deleted_at {
            None => None,
            Some(text) => match parse_timestamp(text.as_str()) {
                Some(t) => Some(t),
                None => {
                    return Err(MappingError { field: TimestampField::DeletedAt });
                },
            },
        };
        Ok(
            Product {
                id: row.id,
                name: row.name,
                unity: row.unity,
                brand: row.brand,
                min_stock: row.min_stock,
                observation: row.observation,
                created_at,
                updated_at,
                deleted_at,
            },
        )
    }
}

impl TryFromSpecImpl<ProductRow> for Product {
    open spec fn obeys_try_from_spec() -> bool {
        true
    }

    open spec fn try_from_spec(row: ProductRow) -> Result<Product, MappingError> {
        match product_of_row(row@) {
            Err(e) => Err(e),
            Ok(product) => Ok(
                Product {
                    id: row.id,
                    name: row.name,
                    unity: row.unity,
                    brand: row.brand,
                    min_stock: row.min_stock,
                    observation: row.observation,
                    created_at: product.created_at,
                    updated_at: product.updated_at,
                    deleted_at: product.deleted_at,
                },
            ),
        }
    }
}

} // verus!
