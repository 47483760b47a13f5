//! Borrowed strings that remember whether they live for the whole program.
use vstd::prelude::*;

use std::borrow::Cow;

verus! {

/// A string slice that is either borrowed for some lifetime or `'static`.
#[derive(Clone, Copy, Debug)]
pub enum RefStr<'a> {
    /// A string borrowed for `'a`.
    Borrowed(&'a str),
    /// A string that lives for the whole program.
    Static(&'static str),
}

impl<'a> RefStr<'a> {
    /// The characters of the string.
    pub open spec fn text(&self) -> Seq<char> {
        match self {
            RefStr::Borrowed(s) => s@,
            RefStr::Static(s) => s@,
        }
    }

    /// Whether the string is `'static`.
    pub open spec fn is_static(&self) -> bool {
        self is Static
    }

    /// The string slice.
    pub fn get(&self) -> (r: &'a str)
        ensures
            r@ == self.text(),
    {
        match self {
            RefStr::Borrowed(s) => s,
            RefStr::Static(s) => s,
        }
    }

    /// The string slice, if it is `'static`.
    pub fn get_static(&self) -> (r: Option<&'static str>)
        ensures
            self.is_static() <==> r is Some,
            r matches Some(s) ==> s@ == self.text(),
    {
        match self {
            RefStr::Borrowed(_) => None,
            RefStr::Static(s) => Some(s),
        }
    }

    /// A `'static` copy-on-write string: the `'static` string itself, or an owned copy of a
    /// borrowed one.
    pub fn into_cow_static(self) -> (r: Cow<'static, str>)
        ensures
            r@ == self.text(),
            r is Borrowed <==> self.is_static(),
    {
        match self {
            RefStr::Borrowed(s) => Cow::Owned(s.to_owned()),
            RefStr::Static(s) => Cow::Borrowed(s),
        }
    }

    /// Whether two strings hold the same characters, whatever their lifetimes.
    pub fn same_text(&self, other: &RefStr<'_>) -> (r: bool)
        ensures
            r == (self.text() == other.text()),
    {
        crate::text::str_eq(self.get(), other.get())
    }
}

} // verus!
