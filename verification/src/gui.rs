use vstd::prelude::*;

verus! {

/// The top-level GUI handle: it only carries the window title.
#[derive(Default)]
pub struct FGui {
    pub title: String,
}

impl FGui {
    /// Creates a GUI handle whose window title is `title`.
    pub fn new(title: String) -> (fgui: FGui)
        ensures
            fgui.title@ == title@,
    {
        FGui { title }
    }
}

} // verus!
