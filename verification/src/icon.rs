//! Which picture an app is drawn with.

use vstd::prelude::*;

use crate::text::same_text;

verus! {

/// An app's icon: the stand-in for apps that have none, or whatever the icon theme or the
/// file system finds under this text.
#[derive(Debug, PartialEq, Eq)]
pub enum AppIconRef {
    Fallback,
    Source(String),
}

impl View for AppIconRef {
    type V = Option<Seq<char>>;

    open spec fn view(&self) -> Option<Seq<char>> {
        match *self {
            AppIconRef::Fallback => None,
            AppIconRef::Source(source) => Some(source@),
        }
    }
}

impl Clone for AppIconRef {
    fn clone(&self) -> (copy: Self)
        ensures
            copy == *self,
    {
        match self {
            AppIconRef::Fallback => AppIconRef::Fallback,
            AppIconRef::Source(source) => AppIconRef::Source(source.clone()),
        }
    }
}

impl AppIconRef {
    /// Whether two icons are the same one.
    pub fn same(&self, other: &AppIconRef) -> (same: bool)
        ensures
            same == (self@ == other@),
    {
        match (self, other) {
            (AppIconRef::Fallback, AppIconRef::Fallback) => true,
            (AppIconRef::Source(a), AppIconRef::Source(b)) => same_text(a.as_str(), b.as_str()),
            _ => false,
        }
    }
}

} // verus!
