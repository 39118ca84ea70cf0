//! The find-airport dialog's state and its frame-by-frame outcome.
//!
//! The widgets themselves are drawn by the outer UI layer; it reports
//! which inputs fired this frame, and [`FindDlg::resolve`] turns them
//! into the dialog's response.

use vstd::prelude::*;

verus! {

/// State of the find dialog: the text typed so far, and whether the text
/// box still has to grab focus.
#[derive(Debug, Default)]
pub struct FindDlg {
    pub text: String,
    pub focus: bool,
}

/// What the dialog resolved to on one frame.
#[derive(Debug)]
pub enum Response {
    /// Nothing yet; the dialog stays up.
    Idle,
    /// The dialog was dismissed.
    Cancel,
    /// A search term was submitted.
    Term(String),
}

impl FindDlg {
    /// A freshly opened dialog: empty text, focus still to grab.
    pub fn open() -> (r: FindDlg)
        ensures
            r.text@ == Seq::<char>::empty(),
            r.focus,
    {
        FindDlg { text: String::new(), focus: true }
    }

    /// The response for one frame: a submitted term wins over a cancel
    /// click, but the escape key dismisses the dialog whatever else
    /// happened.  Submitting takes the text out of the dialog either way.
    pub fn resolve(&mut self, escape: bool, submitted: bool, cancel_clicked: bool) -> (r:
        Response)
        ensures
            final(self).focus == old(self).focus,
            submitted ==> final(self).text@ == Seq::<char>::empty(),
            !submitted ==> final(self).text == old(self).text,
            r == (if escape {
                Response::Cancel
            } else if submitted {
                Response::Term(old(self).text)
            } else if cancel_clicked {
                Response::Cancel
            } else {
                Response::Idle
            }),
    {
        if submitted {
            let mut taken = String::new();
            core::mem::swap(&mut taken, &mut self.text);
            if escape {
                Response::Cancel
            } else {
                Response::Term(taken)
            }
        } else if escape || cancel_clicked {
            Response::Cancel
        } else {
            Response::Idle
        }
    }
}

} // verus!
