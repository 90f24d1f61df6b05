//! What the app grid has in its slots: apps, and folders of apps.

use vstd::prelude::*;

use crate::icon::AppIconRef;
use crate::text::same_text;

verus! {

/// An app, or a folder of apps.
pub struct AppGridEntry {
    /// An app's desktop id, or a folder's own.
    pub id: String,
    pub name: String,
    /// The app's icon. A folder's tile shows its members' instead.
    pub icon: AppIconRef,
    /// A folder's members, in order.
    pub folder: Option<Vec<AppGridEntry>>,
}

/// An entry by its characters.
pub struct EntryView {
    pub id: Seq<char>,
    pub name: Seq<char>,
    pub icon: Option<Seq<char>>,
    pub folder: Option<Seq<EntryView>>,
}

impl AppGridEntry {
    pub open spec fn seen(self) -> EntryView
        decreases self,
    {
        EntryView {
            id: self.id@,
            name: self.name@,
            icon: self.icon@,
            folder: match self.folder {
                Some(members) => Some(
                    Seq::new(
                        members@.len(),
                        |i: int|
                            if 0 <= i < members@.len() {
                                members@[i].seen()
                            } else {
                                arbitrary()
                            },
                    ),
                ),
                None => None,
            },
        }
    }

    /// Whether two entries are alike, their members too.
    pub fn same(&self, other: &AppGridEntry) -> (same: bool)
        ensures
            same == (self.seen() == other.seen()),
        decreases self,
    {
        if !same_text(self.id.as_str(), other.id.as_str()) || !same_text(
            self.name.as_str(),
            other.name.as_str(),
        ) || !self.icon.same(&other.icon) {
            return false;
        }
        match (&self.folder, &other.folder) {
            (None, None) => true,
            (Some(a), Some(b)) => {
                if a.len() != b.len() {
                    assert(self.seen().folder->Some_0.len() != other.seen().folder->Some_0.len());
                    return false;
                }
                let mut i: usize = 0;
                while i < a.len()
                    invariant
                        i <= a@.len(),
                        a@.len() == b@.len(),
                        self.folder == Some(*a),
                        other.folder == Some(*b),
                        forall|j: int|
                            0 <= j < i ==> (#[trigger] a@[j]).seen() == b@[j].seen(),
                    decreases a@.len() - i,
                {
                    assert(decreases_to!(self => a@[i as int]));
                    if !a[i].same(&b[i]) {
                        assert(self.seen().folder->Some_0[i as int] == a@[i as int].seen());
                        assert(other.seen().folder->Some_0[i as int] == b@[i as int].seen());
                        return false;
                    }
                    i = i + 1;
                }
                assert(self.seen().folder->Some_0 =~= other.seen().folder->Some_0);
                true
            },
            _ => false,
        }
    }
}

} // verus!
