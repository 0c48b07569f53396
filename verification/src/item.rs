//! One entry of the menu as it is displayed.

use std::fmt::Display;
use vstd::prelude::*;
use vstd::string::*;

verus! {

/// A function from an entry of the source to the text of its preview.
#[verifier::reject_recursive_types(F)]
pub struct DispFunc<F> {
    pub func: F,
}

impl<F> DispFunc<F> {
    /// Wraps `func`.
    pub fn new(func: F) -> (wrapped: DispFunc<F>)
        ensures
            wrapped.func == func,
    {
        DispFunc { func }
    }

    /// Applies the function to `param`.
    pub fn eval<D>(&self, param: D) -> (text: String) where F: Fn(D) -> String
        requires
            call_requires(self.func, (param,)),
        ensures
            call_ensures(self.func, (param,), text),
    {
        (self.func)(param)
    }
}

/// What an [`Item`] holds, with its texts as sequences of characters.
pub struct ItemView {
    pub icon: Seq<char>,
    pub chosen_icon: Seq<char>,
    pub chosen: bool,
    pub repr: Seq<char>,
    pub preview: Option<Seq<char>>,
}

impl ItemView {
    /// The icon that is drawn: the chosen icon once the entry is chosen.
    pub open spec fn shown_icon(self) -> Seq<char> {
        if self.chosen {
            self.chosen_icon
        } else {
            self.icon
        }
    }

    /// The same entry with its `chosen` flag flipped.
    pub open spec fn toggled(self) -> ItemView {
        ItemView { chosen: !self.chosen, ..self }
    }

    /// The icon, a space and the text.
    pub open spec fn line(self) -> Seq<char> {
        self.shown_icon() + seq![' '] + self.repr
    }
}

/// An entry of the menu: its text, its two icons, whether it is chosen, and
/// the text of its preview where the menu has one.
#[derive(Debug)]
pub struct Item<'a> {
    pub icon: &'a str,
    pub chosen_icon: &'a str,
    pub chosen: bool,
    pub repr: String,
    pub preview: Option<String>,
}

impl<'a> View for Item<'a> {
    type V = ItemView;

    open spec fn view(&self) -> ItemView {
        ItemView {
            icon: self.icon@,
            chosen_icon: self.chosen_icon@,
            chosen: self.chosen,
            repr: self.repr@,
            preview: match self.preview {
                Some(text) => Some(text@),
                None => None,
            },
        }
    }
}

impl<'a> Item<'a> {
    /// A fresh entry for `thing`: not chosen, without a preview, with the
    /// text that `thing` displays as.
    pub fn new<D: Display>(thing: &D, icon: &'a str, chosen_icon: &'a str) -> (item: Item<'a>)
        ensures
            item.icon == icon,
            item.chosen_icon == chosen_icon,
            !item.chosen,
            item.preview is None,
            to_string_from_display_ensures::<D>(thing, item.repr),
    {
        Item { icon, chosen_icon, chosen: false, repr: thing.to_string(), preview: None }
    }

    /// Flips the `chosen` flag.
    pub fn select(&mut self)
        ensures
            final(self)@ == old(self)@.toggled(),
            final(self).icon == old(self).icon,
            final(self).chosen_icon == old(self).chosen_icon,
            final(self).repr == old(self).repr,
            final(self).preview == old(self).preview,
    {
        self.chosen = !self.chosen;
    }

    /// Whether the entry is chosen.
    pub fn chosen(&self) -> (chosen: bool)
        ensures
            chosen == self.chosen,
    {
        self.chosen
    }

    /// The icon to draw before the text.
    pub fn icon(&self) -> (icon: &str)
        ensures
            icon@ == self@.shown_icon(),
    {
        if self.chosen {
            self.chosen_icon
        } else {
            self.icon
        }
    }

    /// The text of the entry.
    pub fn string(&self) -> (text: &String)
        ensures
            text == self.repr,
    {
        &self.repr
    }

    /// Computes the preview of `thing` with `func` and stores it.
    pub fn preview<D: Display, F: Fn(D) -> String>(&mut self, thing: D, func: &DispFunc<F>)
        requires
            call_requires(func.func, (thing,)),
        ensures
            final(self).preview matches Some(text) && call_ensures(func.func, (thing,), text),
            final(self).icon == old(self).icon,
            final(self).chosen_icon == old(self).chosen_icon,
            final(self).chosen == old(self).chosen,
            final(self).repr == old(self).repr,
    {
        self.preview = Some(func.eval(thing));
    }

    /// The entry as one line of text: the icon, a space and the text.
    pub fn to_text(&self) -> (line: String)
        ensures
            line@ == self@.line(),
    {
        proof {
            reveal_strlit(" ");
        }
        let mut line = String::from_str(self.icon());
        line.append(" ");
        line.append(self.repr.as_str());
        assert(" "@ =~= seq![' ']);
        line
    }
}

} // verus!
