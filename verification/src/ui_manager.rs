//! The state of a user-interface element and the sum of the element kinds.

use vstd::prelude::*;

verus! {

/// Whether an element reacts to input and whether it is drawn.
#[derive(Clone, Copy, Debug, PartialEq, Eq, Structural)]
pub enum UIElementState {
    Enabled,
    Disabled,
    Invisible,
}

impl UIElementState {
    /// `Disabled` if `is_disabled`, else `Enabled`.
    pub fn disabled_if(is_disabled: bool) -> (state: UIElementState)
        ensures
            state == if is_disabled {
                UIElementState::Disabled
            } else {
                UIElementState::Enabled
            },
    {
        if is_disabled {
            UIElementState::Disabled
        } else {
            UIElementState::Enabled
        }
    }

    /// `Invisible` if `is_invisible`, else `Enabled`.
    pub fn invisible_if(is_invisible: bool) -> (state: UIElementState)
        ensures
            state == if is_invisible {
                UIElementState::Invisible
            } else {
                UIElementState::Enabled
            },
    {
        if is_invisible {
            UIElementState::Invisible
        } else {
            UIElementState::Enabled
        }
    }
}

/// One element of a user interface: a button, a text input or a checkbox.
#[derive(Debug)]
pub enum UIElement<B, T, C> {
    Button(B),
    TextInput(T),
    Checkbox(C),
}

impl<B: Clone, T: Clone, C: Clone> Clone for UIElement<B, T, C> {
    fn clone(&self) -> (copy: Self)
        ensures
            copy is Button <==> self is Button,
            copy is TextInput <==> self is TextInput,
            copy is Checkbox <==> self is Checkbox,
    {
        match self {
            UIElement::Button(button) => UIElement::Button(button.clone()),
            UIElement::TextInput(text_input) => UIElement::TextInput(text_input.clone()),
            UIElement::Checkbox(checkbox) => UIElement::Checkbox(checkbox.clone()),
        }
    }
}

impl<B, T, C> UIElement<B, T, C> {
    /// The button inside. Only a button element has one.
    pub fn unwrap_button(self) -> (button: B)
        requires
            self is Button,
        ensures
            self == UIElement::<B, T, C>::Button(button),
    {
        match self {
            UIElement::Button(button) => button,
            _ => unreached(),
        }
    }

    /// The text input inside. Only a text input element has one.
    pub fn unwrap_text_input(self) -> (text_input: T)
        requires
            self is TextInput,
        ensures
            self == UIElement::<B, T, C>::TextInput(text_input),
    {
        match self {
            UIElement::TextInput(text_input) => text_input,
            _ => unreached(),
        }
    }
}

} // verus!
