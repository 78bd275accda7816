//! An in-memory text buffer that keeps two synchronized views of the same
//! content: the characters the user actually typed, and a "pretty" rendering
//! in which an external formatter may have inserted extra whitespace.
//!
//! The buffer distinguishes *typed* whitespace (entered by the user,
//! addressable by the cursor, deletable) from *virtual* whitespace (injected
//! by a formatter, visual-only). A [`Content`] value owns an ordered sequence
//! of [`Elmt`]s — each one typed character together with the whitespace run
//! that precedes it — plus a single cursor address, and offers edit
//! operations, rendering, reconciliation against formatter output, and
//! translation of the cursor into a visual line/column position.

mod content;
mod cursor;
mod edit;
mod reconcile;
mod wrap;
mod whitespace;

pub use content::{Content, CursorPos, Elmt};
pub use whitespace::{Whitespace, WhitespaceChar};
pub use wrap::prettify_text;

use vstd::prelude::*;

verus! {

/// Types that can render themselves as the text they stand for.
pub trait GetString {
    /// The text this value renders to.
    spec fn string_view(&self) -> Seq<char>;

    /// Renders the value as a `String`.
    fn get_string(&self) -> (s: String)
        ensures
            s@ == self.string_view(),
    ;
}

/// Relies on `String::push`: appends the one character to the end of the string.
#[verifier::external_body]
pub(crate) fn push_char(s: &mut String, c: char)
    ensures
        final(s)@ == old(s)@.push(c),
{
    s.push(c);
}

} // verus!
