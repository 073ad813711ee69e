//! The screens of the application and the moves between them.

use crate::infra::models::ProductRowView;
use crate::infra::repositories::product_repository::ProductTable;
use crate::screens::products_screen::{
    screen_opened, screen_updated, ProductsScreen, ProductsScreenMessage,
};
use crate::timestamp::{now, DateTime};
use vstd::prelude::*;

verus! {

/// The screens that the side bar offers.
#[derive(Debug, Clone, Copy, PartialEq, Eq, Structural)]
pub enum ScreenId {
    Dashboard,
    Products,
    Suppliers,
    Places,
    InventoryTransactions,
}

/// The screen that is open, with the state that it keeps while open.
pub enum ActiveScreenInstance {
    Dashboard,
    Products(ProductsScreen),
    Suppliers,
    Places,
    InventoryTransactions,
}

/// What can happen to the application.
#[derive(Debug, Clone)]
pub enum Message {
    /// The user chose a screen in the side bar.
    SwitchScreen(ScreenId),
    /// Something happened on the screen of the products.
    Products(ProductsScreenMessage),
}

/// The application: which screen is chosen, and that screen's state.
pub struct StockManagement {
    pub screen: ScreenId,
    pub active_screen: ActiveScreenInstance,
}

impl ActiveScreenInstance {
    /// The screen that this is the state of.
    pub open spec fn id(&self) -> ScreenId {
        match self {
            ActiveScreenInstance::Dashboard => ScreenId::Dashboard,
            ActiveScreenInstance::Products(_) => ScreenId::Products,
            ActiveScreenInstance::Suppliers => ScreenId::Suppliers,
            ActiveScreenInstance::Places => ScreenId::Places,
            ActiveScreenInstance::InventoryTransactions => ScreenId::InventoryTransactions,
        }
    }
}

/// What a message received at `now` does to the application. A switch
/// opens the chosen screen afresh; the screen of the products loads its
/// list from the table. A message for the screen of the products reaches
/// it while it is open and is dropped otherwise.
pub open spec fn app_updated(
    before: StockManagement,
    rows: Seq<ProductRowView>,
    message: Message,
    now: DateTime,
    after: StockManagement,
    rows_after: Seq<ProductRowView>,
) -> bool {
    match message {
        Message::SwitchScreen(screen) => {
            &&& rows_after == rows
            &&& after.screen == screen
            &&& after.active_screen.id() == screen
            &&& after.active_screen matches ActiveScreenInstance::Products(opened)
                ==> screen_opened(rows, opened@)
        },
        Message::Products(inner) => match before.active_screen {
            ActiveScreenInstance::Products(open) => {
                &&& after.screen == before.screen
                &&& after.active_screen matches ActiveScreenInstance::Products(updated)
                &&& screen_updated(open@, rows, inner, now, updated@, rows_after)
            },
            _ => after == before && rows_after == rows,
        },
    }
}

impl Default for StockManagement {
    fn default() -> (app: StockManagement)
        ensures
            app.screen == ScreenId::Dashboard,
            app.active_screen == ActiveScreenInstance::Dashboard,
    {
        StockManagement {
            screen: ScreenId::Dashboard,
            active_screen: ActiveScreenInstance::Dashboard,
        }
    }
}

impl StockManagement {
    /// Takes a message at the time `now`.
    pub fn update_at(&mut self, table: &mut ProductTable, message: Message, now: &DateTime)
        requires
            old(table).wf(),
            now.is_valid(),
        ensures
            final(table).wf(),
            app_updated(*old(self), old(table)@, message, *now, *final(self), final(table)@),
    {
        match message {
            Message::SwitchScreen(screen) => {
                self.screen = screen;
                self.active_screen = match screen {
                    ScreenId::Dashboard => ActiveScreenInstance::Dashboard,
                    ScreenId::Products => {
                        ActiveScreenInstance::Products(ProductsScreen::new(table))
                    },
                    ScreenId::Suppliers => ActiveScreenInstance::Suppliers,
                    ScreenId::Places => ActiveScreenInstance::Places,
                    ScreenId::InventoryTransactions => ActiveScreenInstance::InventoryTransactions,
                };
            },
            Message::Products(inner) => {
                match &mut self.active_screen {
                    ActiveScreenInstance::Products(screen) => {
                        screen.update_at(table, inner, now);
                    },
                    _ => {},
                }
            },
        }
    }

    /// Takes a message at the current time of the clock.
    pub fn update(&mut self, table: &mut ProductTable, message: Message)
        requires
            old(table).wf(),
        ensures
            final(table).wf(),
            exists|now: DateTime|
                now.is_valid() && #[trigger] app_updated(
                    *old(self),
                    old(table)@,
                    message,
                    now,
                    *final(self),
                    final(table)@,
                ),
    {
        let t = now();
        self.update_at(table, message, &t)
    }
}

} // verus!
