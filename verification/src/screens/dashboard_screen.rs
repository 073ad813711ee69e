//! The dashboard: it holds the form of a supplier while one is open, and
//! the failure that waits to be shown.

use crate::components::modals::supplier_form_modal::SupplierFormModal;
use crate::domain::supplier::{Supplier, SupplierView};
use crate::infra::models::SupplierRowView;
use crate::infra::repositories::supplier_repository::{
    list_suppliers, listed_rows, supplier_views, suppliers_of_rows, SupplierTable,
};
use vstd::prelude::*;

verus! {

/// The dashboard.
pub struct DashboardScreen {
    pub entry_form_modal: Option<SupplierFormModal>,
    pub error: Option<String>,
}

/// The suppliers that the dashboard shows for a table under a search: the
/// live ones that answer it, or none where the listing fails.
pub open spec fn suppliers_shown(rows: Seq<SupplierRowView>, search: Seq<char>) -> Seq<
    SupplierView,
> {
    match suppliers_of_rows(listed_rows(rows, search)) {
        Ok(suppliers) => suppliers,
        Err(_) => Seq::empty(),
    }
}

impl DashboardScreen {
    /// The live suppliers of the table that answer the search, and none
    /// where the listing fails.
    pub fn get_suppliers_list(table: &SupplierTable, search: &str) -> (suppliers: Vec<Supplier>)
        ensures
            supplier_views(suppliers@) == suppliers_shown(table@, search@),
    {
        let suppliers = match list_suppliers(table, search) {
            Ok(suppliers) => suppliers,
            Err(_) => Vec::new(),
        };
        assert(supplier_views(suppliers@) == suppliers_shown(table@, search@));
        suppliers
    }

    /// The dashboard as it opens: no form and no failure.
    pub fn new() -> (screen: DashboardScreen)
        ensures
            screen.entry_form_modal is None,
            screen.error is None,
    {
        DashboardScreen { entry_form_modal: None, error: None }
    }

    /// The press of OK under the failure: it is shown no more.
    pub fn dismiss_error(&mut self)
        ensures
            final(self).error is None,
            final(self).entry_form_modal == old(self).entry_form_modal,
    {
        self.error = None;
    }
}

} // verus!
