use vstd::prelude::*;

verus! {

/// What a menu entry holds apart from its action.
pub struct OptionView {
    pub key: Seq<char>,
    pub description: Seq<char>,
    pub is_exit: bool,
}

/// One selectable entry of a menu: a key, a label, an action and a flag that
/// marks the entry as ending the session.
///
/// The action is carried as an opaque value of type `A`; the menu never looks
/// inside it.
#[derive(Clone)]
pub struct MenuOption<A> {
    key: String,
    description: String,
    on_select: A,
    is_exit: bool,
}

impl<A> View for MenuOption<A> {
    type V = OptionView;

    closed spec fn view(&self) -> OptionView {
        OptionView { key: self.key@, description: self.description@, is_exit: self.is_exit }
    }
}

impl<A> MenuOption<A> {
    /// The action attached to this entry.
    pub closed spec fn action(&self) -> A {
        self.on_select
    }

    /// Builds an entry; nothing is validated.
    pub fn new(key: String, description: &str, on_select: A, is_exit: bool) -> (r: MenuOption<A>)
        ensures
            r@ == (OptionView { key: key@, description: description@, is_exit }),
            r.action() == on_select,
    {
        MenuOption { key, description: description.to_owned(), on_select, is_exit }
    }

    pub fn key(&self) -> (r: &String)
        ensures
            r@ == self@.key,
    {
        &self.key
    }

    pub fn description(&self) -> (r: &String)
        ensures
            r@ == self@.description,
    {
        &self.description
    }

    pub fn on_select(&self) -> (r: &A)
        ensures
            *r == self.action(),
    {
        &self.on_select
    }

    pub fn is_exit(&self) -> (r: bool)
        ensures
            r == self@.is_exit,
    {
        self.is_exit
    }
}

} // verus!
