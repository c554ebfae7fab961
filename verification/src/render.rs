//! Values that can be written out as text.

use vstd::prelude::*;
use vstd::string::*;

verus! {

/// A value that has a textual form, fixed by the value alone.
///
/// It is what a context message must offer: the text is what ends up in a
/// failure's frame.
pub trait Render {
    /// The text that the value is written as.
    spec fn text(&self) -> Seq<char>;

    /// Writes the value out.
    fn render(&self) -> (s: String)
        ensures
            s@ == self.text(),
    ;
}

impl Render for String {
    open spec fn text(&self) -> Seq<char> {
        self@
    }

    fn render(&self) -> (s: String) {
        self.clone()
    }
}

impl Render for &'static str {
    open spec fn text(&self) -> Seq<char> {
        (*self)@
    }

    fn render(&self) -> (s: String) {
        String::from_str(*self)
    }
}

} // verus!
