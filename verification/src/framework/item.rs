use vstd::prelude::*;
use crate::framework::frameworkclean::FrameworkClean;
use crate::framework::state::ItemInfo;
use crate::widgets::textfield::{
    content_after_insert, content_after_remove, TextField, TextFieldError,
};
use crate::widgets::textlist::{TextList, TextListError};

verus! {

/// A key, as the framework consumes it. Translating raw terminal input
/// into this type is the host's responsibility.
#[derive(Clone, Copy, Debug, PartialEq, Eq, Structural)]
pub enum KeyInput {
    Char(char),
    Backspace,
    Delete,
    Left,
    Right,
    Up,
    Down,
    Home,
    End,
    PageUp,
    PageDown,
    Enter,
    Esc,
}

/// An error handed back by an item's key handler.
#[derive(Clone, Copy, Debug, PartialEq, Eq, Structural)]
pub enum ItemError {
    TextField(TextFieldError),
    TextList(TextListError),
}

/// An item of the grid. The set of kinds is closed so that every item's
/// behaviour is known to the framework: the two widgets of this crate, and
/// a plain label for static content.
#[derive(Debug)]
pub enum FrameworkItem {
    TextField(TextField),
    TextList(TextList),
    /// Static text with a say over whether the cursor may rest on it.
    Label { text: String, selectable: bool },
}

impl FrameworkItem {
    /// Both items are of the same kind and hold the same values.
    pub open spec fn congruent(self, other: FrameworkItem) -> bool {
        match (self, other) {
            (FrameworkItem::TextField(a), FrameworkItem::TextField(b)) => a == b,
            (FrameworkItem::TextList(a), FrameworkItem::TextList(b)) => a.congruent(b),
            (
                FrameworkItem::Label { text: a, selectable: sa },
                FrameworkItem::Label { text: b, selectable: sb },
            ) => a == b && sa == sb,
            _ => false,
        }
    }

    /// Whether the cursor may hover on or select this item.
    pub open spec fn spec_selectable(self) -> bool {
        match self {
            FrameworkItem::TextField(_) => true,
            FrameworkItem::TextList(_) => true,
            FrameworkItem::Label { selectable, .. } => selectable,
        }
    }

    /// Whether the cursor may hover on or select this item.
    pub fn selectable(&self) -> (r: bool)
        ensures
            r == self.spec_selectable(),
    {
        match self {
            FrameworkItem::TextField(_) => true,
            FrameworkItem::TextList(_) => true,
            FrameworkItem::Label { selectable, .. } => *selectable,
        }
    }

    /// The select hook: every item of this crate accepts selection and
    /// leaves the context alone.
    pub fn select(&mut self, framework: &mut FrameworkClean) -> (r: bool)
        ensures
            *final(self) == *old(self),
            *final(framework) == *old(framework),
            r == true,
    {
        let _ = framework;
        true
    }

    /// The deselect hook: every item of this crate accepts deselection and
    /// leaves the context alone.
    pub fn deselect(&mut self, framework: &mut FrameworkClean) -> (r: bool)
        ensures
            *final(self) == *old(self),
            *final(framework) == *old(framework),
            r == true,
    {
        let _ = framework;
        true
    }

    /// The load hook: no item of this crate needs initialisation.
    pub fn load_item(&mut self, framework: &mut FrameworkClean, info: ItemInfo) -> (r: Result<
        (),
        ItemError,
    >)
        ensures
            *final(self) == *old(self),
            *final(framework) == *old(framework),
            r is Ok,
    {
        let _ = framework;
        let _ = info;
        Ok(())
    }

    /// The mouse hook: no item of this crate consumes clicks itself.
    pub fn mouse_event(
        &mut self,
        framework: &mut FrameworkClean,
        x: u16,
        y: u16,
        absolute_x: u16,
        absolute_y: u16,
    ) -> (r: bool)
        ensures
            *final(self) == *old(self),
            *final(framework) == *old(framework),
            r == false,
    {
        let _ = framework;
        let _ = (x, y, absolute_x, absolute_y);
        false
    }

    /// The key hook: an editing key goes to a text field, a movement key
    /// to a text list, and everything else is ignored. The context and the
    /// item's selectability are never touched; a key that a widget cannot
    /// apply in its current configuration is dropped.
    pub fn key_event(&mut self, framework: &mut FrameworkClean, key: KeyInput, info: ItemInfo) -> (r:
        Result<(), ItemError>)
        ensures
            *final(framework) == *old(framework),
            (*final(self)).spec_selectable() == (*old(self)).spec_selectable(),
            *old(self) is Label ==> *final(self) == *old(self) && r is Ok,
            (*final(self)) is TextField <==> *old(self) is TextField,
            (*final(self)) is TextList <==> *old(self) is TextList,
            *old(self) matches FrameworkItem::TextField(tf) ==> (tf.width matches Some(w) ==> (
            key matches KeyInput::Char(c) ==> (w > 0 && tf.cursor < usize::MAX ==> (
            (*final(self)) matches FrameworkItem::TextField(tf2) && tf2.content@
                == content_after_insert(tf.content@, tf.cursor, c) && r is Ok)))),
            *old(self) matches FrameworkItem::TextField(tf) ==> (tf.width matches Some(w) ==> (w
                > 0 && key == KeyInput::Backspace ==> (
            (*final(self)) matches FrameworkItem::TextField(tf2) && tf2.content@ == (if tf.cursor
                == 0 {
                tf.content@
            } else {
                content_after_remove(tf.content@, tf.cursor)
            }) && r is Ok))),
            *old(self) matches FrameworkItem::TextField(tf) ==> (key == KeyInput::Left || key
                == KeyInput::Right || key == KeyInput::Home || key == KeyInput::End ==> (
            (*final(self)) matches FrameworkItem::TextField(tf2) && tf2.content == tf.content)),
            *old(self) matches FrameworkItem::TextList(tl) ==> (key == KeyInput::Up ==> (
            (*final(self)) matches FrameworkItem::TextList(tl2) && tl2.same_but_position(tl)
                && tl2.selected == (if tl.selected > 0 {
                tl.selected - 1
            } else {
                0
            }))),
            *old(self) matches FrameworkItem::TextList(tl) ==> (key == KeyInput::Down
                && tl.items@.len() > 0 && tl.selected < tl.items@.len() - 1 ==> (
            (*final(self)) matches FrameworkItem::TextList(tl2) && tl2.same_but_position(tl)
                && tl2.selected == tl.selected + 1)),
            *old(self) matches FrameworkItem::TextList(tl) ==> (
            (*final(self)) matches FrameworkItem::TextList(tl2) && tl2.same_but_position(tl)),
    {
        let _ = framework;
        let _ = info;
        match self {
            FrameworkItem::TextField(tf) => {
                match key {
                    KeyInput::Char(c) => {
                        if tf.cursor < usize::MAX && !width_is_zero(tf) {
                            match tf.push(c) {
                                Ok(()) => Ok(()),
                                Err(e) => Err(ItemError::TextField(e)),
                            }
                        } else {
                            Ok(())
                        }
                    },
                    KeyInput::Backspace => {
                        if !width_is_zero(tf) {
                            match tf.pop() {
                                Ok(()) => Ok(()),
                                Err(e) => Err(ItemError::TextField(e)),
                            }
                        } else {
                            Ok(())
                        }
                    },
                    KeyInput::Left => {
                        if !width_is_zero(tf) {
                            match tf.left() {
                                Ok(()) => Ok(()),
                                Err(e) => Err(ItemError::TextField(e)),
                            }
                        } else {
                            Ok(())
                        }
                    },
                    KeyInput::Right => {
                        if tf.cursor < usize::MAX && !width_is_zero(tf) {
                            match tf.right() {
                                Ok(()) => Ok(()),
                                Err(e) => Err(ItemError::TextField(e)),
                            }
                        } else {
                            Ok(())
                        }
                    },
                    KeyInput::Home => {
                        if !width_is_zero(tf) {
                            match tf.first() {
                                Ok(()) => Ok(()),
                                Err(e) => Err(ItemError::TextField(e)),
                            }
                        } else {
                            Ok(())
                        }
                    },
                    KeyInput::End => {
                        if !width_is_zero(tf) {
                            match tf.last() {
                                Ok(()) => Ok(()),
                                Err(e) => Err(ItemError::TextField(e)),
                            }
                        } else {
                            Ok(())
                        }
                    },
                    _ => Ok(()),
                }
            },
            FrameworkItem::TextList(tl) => {
                let stepped: Result<(), TextListError> = match key {
                    KeyInput::Up => tl.up(),
                    KeyInput::Down => tl.down(),
                    KeyInput::PageUp => tl.pageup(),
                    KeyInput::PageDown => tl.pagedown(),
                    KeyInput::Home => tl.first(),
                    KeyInput::End => tl.last(),
                    _ => Ok(()),
                };
                match stepped {
                    Ok(()) => Ok(()),
                    Err(e) => Err(ItemError::TextList(e)),
                }
            },
            FrameworkItem::Label { .. } => Ok(()),
        }
    }
}

/// Whether a text field's declared width is zero, the one configuration
/// its editing operations refuse to touch.
fn width_is_zero(tf: &TextField) -> (r: bool)
    ensures
        r == (tf.width matches Some(w) && w == 0),
{
    match tf.width {
        Some(w) => w == 0,
        None => false,
    }
}

impl Clone for FrameworkItem {
    fn clone(&self) -> (r: Self)
        ensures
            r.congruent(*self),
    {
        match self {
            FrameworkItem::TextField(tf) => FrameworkItem::TextField(tf.clone()),
            FrameworkItem::TextList(tl) => FrameworkItem::TextList(tl.clone()),
            FrameworkItem::Label { text, selectable } => FrameworkItem::Label {
                text: text.clone(),
                selectable: *selectable,
            },
        }
    }
}

} // verus!
