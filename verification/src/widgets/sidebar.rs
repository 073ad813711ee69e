//! The side bar: one entry for each screen, in a fixed order.

use crate::navigation::{Message, ScreenId};
use vstd::prelude::*;

verus! {

/// The entries of the side bar, from top to bottom: the label of each and
/// the screen that it opens.
pub open spec fn menu_entries() -> Seq<(Seq<char>, ScreenId)> {
    seq![
        ("Dashboard"@, ScreenId::Dashboard),
        ("Products"@, ScreenId::Products),
        ("Suppliers"@, ScreenId::Suppliers),
        ("Places"@, ScreenId::Places),
        ("Inventory Transactions"@, ScreenId::InventoryTransactions),
    ]
}

/// The side bar.
pub struct SideBar {
    menus: [(&'static str, ScreenId); 5],
}

impl View for SideBar {
    type V = Seq<(Seq<char>, ScreenId)>;

    closed spec fn view(&self) -> Seq<(Seq<char>, ScreenId)> {
        self.menus@.map_values(|menu: (&'static str, ScreenId)| (menu.0@, menu.1))
    }
}

impl SideBar {
    /// The side bar with its five entries.
    pub fn new() -> (bar: SideBar)
        ensures
            bar@ == menu_entries(),
    {
        let bar = SideBar {
            menus: [
                ("Dashboard", ScreenId::Dashboard),
                ("Products", ScreenId::Products),
                ("Suppliers", ScreenId::Suppliers),
                ("Places", ScreenId::Places),
                ("Inventory Transactions", ScreenId::InventoryTransactions),
            ],
        };
        assert(bar@ =~= menu_entries());
        bar
    }

    /// The number of entries.
    pub fn len(&self) -> (n: usize)
        ensures
            n == self@.len(),
    {
        self.menus.len()
    }

    /// The label of an entry.
    pub fn label(&self, index: usize) -> (label: &'static str)
        requires
            index < self@.len(),
        ensures
            label@ == self@[index as int].0,
    {
        self.menus[index].0
    }

    /// The screen that an entry opens.
    pub fn screen(&self, index: usize) -> (screen: ScreenId)
        requires
            index < self@.len(),
        ensures
            screen == self@[index as int].1,
    {
        self.menus[index].1
    }

    /// A click on an entry: its screen becomes the active one.
    pub fn click(&self, index: usize, active_screen: &mut ScreenId)
        requires
            index < self@.len(),
        ensures
            *final(active_screen) == self@[index as int].1,
    {
        let is_active = *active_screen == self.menus[index].1;
        if !is_active {
            *active_screen = self.menus[index].1;
        }
    }

    /// The message that a press on an entry sends: a switch to its
    /// screen, and none for the entry of the screen that is open.
    pub fn message(&self, index: usize, screen: &ScreenId) -> (message: Option<Message>)
        requires
            index < self@.len(),
        ensures
            message == (if *screen != self@[index as int].1 {
                Some(Message::SwitchScreen(self@[index as int].1))
            } else {
                None
            }),
    {
        if *screen != self.menus[index].1 {
            Some(Message::SwitchScreen(self.menus[index].1))
        } else {
            None
        }
    }
}

} // verus!
