//! Menu navigation state for an interactive front end: a stack of screens
//! and the input modes of the packing form. The drawing itself is
//! presentation and lives outside the library; only the navigation model is
//! here.

use vstd::prelude::*;

verus! {

/// One screen of the interactive menu.
#[derive(Debug)]
pub enum MenuState {
    Main,
    Pack,
    Unpack,
    List,
    Exit,
}

/// The stack of open screens; the top is the screen being shown.
#[derive(Debug)]
pub struct ScreenStack {
    pub stack: Vec<MenuState>,
}

impl View for ScreenStack {
    type V = Seq<MenuState>;

    open spec fn view(&self) -> Seq<MenuState> {
        self.stack@
    }
}

impl ScreenStack {
    /// A fresh stack, showing the main menu.
    pub fn new() -> (r: Self)
        ensures
            r@ == seq![MenuState::Main],
    {
        let mut stack: Vec<MenuState> = Vec::new();
        stack.push(MenuState::Main);
        proof {
            assert(stack@ =~= seq![MenuState::Main]);
        }
        Self { stack }
    }

    /// Open a screen on top of the current one.
    pub fn push(&mut self, state: MenuState)
        ensures
            final(self)@ == old(self)@.push(state),
    {
        self.stack.push(state);
    }

    /// Close the top screen and return it, if any is open.
    pub fn pop(&mut self) -> (r: Option<MenuState>)
        ensures
            old(self)@.len() == 0 ==> r is None && final(self)@ == old(self)@,
            old(self)@.len() > 0 ==> r == Some(old(self)@.last()) && final(self)@ == old(
                self,
            )@.drop_last(),
    {
        self.stack.pop()
    }

    /// The screen being shown, if any is open.
    pub fn peek(&self) -> (r: Option<&MenuState>)
        ensures
            self@.len() == 0 ==> r is None,
            self@.len() > 0 ==> (r matches Some(s) && *s == self@.last()),
    {
        self.stack.last()
    }
}

/// Whether a keystroke navigates the form or edits a field.
#[derive(Debug, Clone, PartialEq, PartialOrd)]
pub enum InputMode {
    Nav,
    Input(InputField),
}

/// The editable fields of the packing form.
#[derive(Debug, Clone, PartialEq, PartialOrd)]
pub enum InputField {
    InputDir,
    OutputName,
}

} // verus!
