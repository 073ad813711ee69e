//! The rows of the store, with every timestamp as text, and the shapes in
//! which callers hand in new records and changes.

use vstd::prelude::*;

verus! {

/// The text of an optional column, if it is set.
pub open spec fn optional_text(value: Option<String>) -> Option<Seq<char>> {
    match value {
        Some(s) => Some(s@),
        None => None,
    }
}

/// A copy of an optional text.
pub fn clone_optional(value: &Option<String>) -> (r: Option<String>)
    ensures
        r == *value,
{
    match value {
        Some(s) => Some(s.clone()),
        None => None,
    }
}

/// A persisted place.
#[derive(Debug, PartialEq, Eq)]
pub struct PlaceRow {
    pub id: i32,
    pub name: String,
    pub created_at: String,
    pub updated_at: String,
    pub deleted_at: Option<String>,
}

/// What a `PlaceRow` holds, as mathematical values.
pub struct PlaceRowView {
    pub id: i32,
    pub name: Seq<char>,
    pub created_at: Seq<char>,
    pub updated_at: Seq<char>,
    pub deleted_at: Option<Seq<char>>,
}

impl View for PlaceRow {
    type V = PlaceRowView;

    open spec fn view(&self) -> PlaceRowView {
        PlaceRowView {
            id: self.id,
            name: self.name@,
            created_at: self.created_at@,
            updated_at: self.updated_at@,
            deleted_at: optional_text(self.deleted_at),
        }
    }
}

impl Clone for PlaceRow {
    fn clone(&self) -> (r: Self)
        ensures
            r == *self,
    {
        PlaceRow {
            id: self.id,
            name: self.name.clone(),
            created_at: self.created_at.clone(),
            updated_at: self.updated_at.clone(),
            deleted_at: clone_optional(&self.deleted_at),
        }
    }
}

/// A place to insert: all that the caller supplies.
#[derive(Debug, PartialEq, Eq)]
pub struct NewPlaceRow {
    pub name: String,
}

/// A change to a place: its id and the new name.
#[derive(Debug, PartialEq, Eq)]
pub struct EditPlaceRow {
    pub id: i32,
    pub name: String,
}

/// A persisted supplier.
#[derive(Debug, PartialEq, Eq)]
pub struct SupplierRow {
    pub id: i32,
    pub name: String,
    pub created_at: String,
    pub updated_at: String,
    pub deleted_at: Option<String>,
}

/// What a `SupplierRow` holds, as mathematical values.
pub struct SupplierRowView {
    pub id: i32,
    pub name: Seq<char>,
    pub created_at: Seq<char>,
    pub updated_at: Seq<char>,
    pub deleted_at: Option<Seq<char>>,
}

impl View for SupplierRow {
    type V = SupplierRowView;

    open spec fn view(&self) -> SupplierRowView {
        SupplierRowView {
            id: self.id,
            name: self.name@,
            created_at: self.created_at@,
            updated_at: self.updated_at@,
            deleted_at: optional_text(self.deleted_at),
        }
    }
}

impl Clone for SupplierRow {
    fn clone(&self) -> (r: Self)
        ensures
            r == *self,
    {
        SupplierRow {
            id: self.id,
            name: self.name.clone(),
            created_at: self.created_at.clone(),
            updated_at: self.updated_at.clone(),
            deleted_at: clone_optional(&self.deleted_at),
        }
    }
}

/// A supplier to insert: all that the caller supplies.
#[derive(Debug, PartialEq, Eq)]
pub struct NewSupplierRow {
    pub name: String,
}

/// A change to a supplier: its id and the new name.
#[derive(Debug, PartialEq, Eq)]
pub struct EditSupplierRow {
    pub id: i32,
    pub name: String,
}

/// A persisted product.
#[derive(Debug, PartialEq, Eq)]
pub struct ProductRow {
    pub id: i32,
    pub name: String,
    pub unity: Option<String>,
    pub brand: Option<String>,
    pub min_stock: i32,
    pub observation: Option<String>,
    pub created_at: String,
    pub updated_at: String,
    pub deleted_at: Option<String>,
}

/// What a `ProductRow` holds, as mathematical values.
pub struct ProductRowView {
    pub id: i32,
    pub name: Seq<char>,
    pub unity: Option<Seq<char>>,
    pub brand: Option<Seq<char>>,
    pub min_stock: i32,
    pub observation: Option<Seq<char>>,
    pub created_at: Seq<char>,
    pub updated_at: Seq<char>,
    pub deleted_at: Option<Seq<char>>,
}

impl View for ProductRow {
    type V = ProductRowView;

    open spec fn view(&self) -> ProductRowView {
        ProductRowView {
            id: self.id,
            name: self.name@,
            unity: optional_text(self.unity),
            brand: optional_text(self.brand),
            min_stock: self.min_stock,
            observation: optional_text(self.observation),
            created_at: self.created_at@,
            updated_at: self.updated_at@,
            deleted_at: optional_text(self.deleted_at),
        }
    }
}

impl Clone for ProductRow {
    fn clone(&self) -> (r: Self)
        ensures
            r == *self,
    {
        ProductRow {
            id: self.id,
            name: self.name.clone(),
            unity: clone_optional(&self.unity),
            brand: clone_optional(&self.brand),
            min_stock: self.min_stock,
            observation: clone_optional(&self.observation),
            created_at: self.created_at.clone(),
            updated_at: self.updated_at.clone(),
            deleted_at: clone_optional(&self.deleted_at),
        }
    }
}

/// A product to insert: all that the caller supplies. Where `min_stock` is
/// left out, the store sets it to 0.
#[derive(Debug, PartialEq, Eq)]
pub struct NewProductRow {
    pub name: String,
    pub unity: Option<String>,
    pub brand: Option<String>,
    pub min_stock: Option<i32>,
    pub observation: Option<String>,
}

/// What a `NewProductRow` holds, as mathematical values.
pub struct NewProductRowView {
    pub name: Seq<char>,
    pub unity: Option<Seq<char>>,
    pub brand: Option<Seq<char>>,
    pub min_stock: Option<i32>,
    pub observation: Option<Seq<char>>,
}

impl View for NewProductRow {
    type V = NewProductRowView;

    open spec fn view(&self) -> NewProductRowView {
        NewProductRowView {
            name: self.name@,
            unity: optional_text(self.unity),
            brand: optional_text(self.brand),
            min_stock: self.min_stock,
            observation: optional_text(self.observation),
        }
    }
}

/// A change to a product: its id, the new name, and a new value for each
/// further field that is to change. A field left out keeps its value.
#[derive(Debug, PartialEq, Eq)]
pub struct EditProductRow {
    pub id: i32,
    pub name: String,
    pub unity: Option<String>,
    pub brand: Option<String>,
    pub min_stock: Option<i32>,
    pub observation: Option<String>,
}

/// What an `EditProductRow` holds, as mathematical values.
pub struct EditProductRowView {
    pub id: i32,
    pub name: Seq<char>,
    pub unity: Option<Seq<char>>,
    pub brand: Option<Seq<char>>,
    pub min_stock: Option<i32>,
    pub observation: Option<Seq<char>>,
}

impl View for EditProductRow {
    type V = EditProductRowView;

    open spec fn view(&self) -> EditProductRowView {
        EditProductRowView {
            id: self.id,
            name: self.name@,
            unity: optional_text(self.unity),
            brand: optional_text(self.brand),
            min_stock: self.min_stock,
            observation: optional_text(self.observation),
        }
    }
}

} // verus!
