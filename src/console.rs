use vstd::prelude::*;

verus! {

/// The screens of the menu-driven front end.
#[derive(Clone, Copy, Debug, PartialEq, Eq, Structural)]
pub enum View {
    Menu,
    CreateBackup,
    RestoreBackup,
    Exit,
}

/// A menu line and the screen it leads to.
#[derive(Debug)]
pub struct MenuItem {
    pub description: String,
    pub view: View,
}

/// The status screen; it holds no state.
#[derive(Debug)]
pub struct StatusView {}

impl StatusView {
    pub fn new() -> (r: StatusView)
        ensures
            r == (StatusView {}),
    {
        StatusView {}
    }
}

/// The menu's selection logic: which item is highlighted and which screen
/// was chosen.
#[derive(Debug)]
pub struct MenuState {
    pub selected: Option<usize>,
    pub choice: Option<View>,
}

impl MenuState {
    pub fn new() -> (r: MenuState)
        ensures
            r.selected is None,
            r.choice is None,
    {
        MenuState { selected: None, choice: None }
    }

    /// Enter: choose the highlighted item's screen, if an item is
    /// highlighted.
    pub fn enter(&mut self, items: &Vec<MenuItem>)
        ensures
            final(self).selected == old(self).selected,
            (old(self).selected matches Some(ix) && ix < items.len()) ==> final(self).choice == Some(
                items[old(self).selected->0 as int].view,
            ),
            !(old(self).selected matches Some(ix) && ix < items.len()) ==> final(self).choice == old(
                self,
            ).choice,
    {
        if let Some(ix) = self.selected {
            if ix < items.len() {
                self.choice = Some(items[ix].view);
            }
        }
    }

    pub fn choice(&self) -> (r: Option<View>)
        ensures
            r == self.choice,
    {
        self.choice
    }

    pub fn clear(&mut self)
        ensures
            final(self).choice is None,
            final(self).selected == old(self).selected,
    {
        self.choice = None;
    }
}

} // verus!
