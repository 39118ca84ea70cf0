//! The transient list of airport choices offered to the user.
//!
//! A secondary click opens a popup at the clicked coordinates, which the
//! nearby results then fill; a text search with several hits opens a
//! selection dialog.  The choices are dropped as soon as the zoom or the
//! displayed rectangle changes, since they no longer belong to what is on
//! screen.

use vstd::prelude::*;

use crate::geom::{Coord, Rect};
use crate::nasr::APTInfo;

verus! {

/// What the user is currently being offered.
#[derive(Debug)]
pub enum ChoiceState {
    /// No choices are up.
    Empty,
    /// A popup at a clicked position, labeled with the clicked
    /// coordinates, waiting for or holding the nearby results.
    Menu(String, Option<Vec<APTInfo>>),
    /// A dialog listing search results to pick from.
    Dialog(Vec<APTInfo>),
}

/// The transient airport choices, tied to one viewport state.
pub struct AptChoices {
    zoom: u32,
    disp_rect: Rect,
    state: ChoiceState,
}

impl AptChoices {
    /// The current offer.
    pub closed spec fn spec_state(self) -> ChoiceState {
        self.state
    }

    /// The zoom the offer belongs to.
    pub closed spec fn spec_zoom(self) -> u32 {
        self.zoom
    }

    /// The displayed rectangle the offer belongs to.
    pub closed spec fn spec_disp_rect(self) -> Rect {
        self.disp_rect
    }

    /// Look at the current offer.
    pub fn state(&self) -> (r: &ChoiceState)
        ensures
            *r == self.spec_state(),
    {
        &self.state
    }

    /// No choices for a freshly opened chart.
    pub fn new(zoom: u32, disp_rect: Rect) -> (r: AptChoices)
        ensures
            r.spec_state() is Empty,
            r.spec_zoom() == zoom,
            r.spec_disp_rect() == disp_rect,
    {
        AptChoices { zoom, disp_rect, state: ChoiceState::Empty }
    }

    /// Follow the viewport: any change of zoom or displayed rectangle
    /// drops the choices.
    pub fn sync(&mut self, zoom: u32, disp_rect: Rect)
        ensures
            final(self).spec_zoom() == zoom,
            final(self).spec_disp_rect() == disp_rect,
            final(self).spec_state() == (if zoom != old(self).spec_zoom() || disp_rect != old(
                self,
            ).spec_disp_rect() {
                ChoiceState::Empty
            } else {
                old(self).spec_state()
            }),
    {
        if zoom != self.zoom || disp_rect != self.disp_rect {
            self.state = ChoiceState::Empty;
        }
        self.zoom = zoom;
        self.disp_rect = disp_rect;
    }

    /// Drop the choices: the popup or dialog was dismissed.
    pub fn clear(&mut self)
        ensures
            final(self).spec_state() is Empty,
            final(self).spec_zoom() == old(self).spec_zoom(),
            final(self).spec_disp_rect() == old(self).spec_disp_rect(),
    {
        self.state = ChoiceState::Empty;
    }

    /// A secondary click opens the popup, labeled with the clicked
    /// coordinates, with the nearby results still to come.
    pub fn open_menu(&mut self, label: String)
        ensures
            final(self).spec_state() == ChoiceState::Menu(label, None::<Vec<APTInfo>>),
            final(self).spec_zoom() == old(self).spec_zoom(),
            final(self).spec_disp_rect() == old(self).spec_disp_rect(),
    {
        self.state = ChoiceState::Menu(label, None);
    }

    /// A nearby answer fills the open popup; an empty answer, or no open
    /// popup, changes nothing.
    pub fn set_nearby(&mut self, infos: Vec<APTInfo>)
        ensures
            final(self).spec_zoom() == old(self).spec_zoom(),
            final(self).spec_disp_rect() == old(self).spec_disp_rect(),
            final(self).spec_state() == (match old(self).spec_state() {
                ChoiceState::Menu(l, prior) => if infos@.len() > 0 {
                    ChoiceState::Menu(l, Some(infos))
                } else {
                    ChoiceState::Menu(l, prior)
                },
                s => s,
            }),
    {
        if infos.len() > 0 {
            match &mut self.state {
                ChoiceState::Menu(_, list) => {
                    *list = Some(infos);
                },
                _ => (),
            }
        }
    }

    /// A search answer: a single hit is an immediate target to pan to,
    /// several hits open the selection dialog, none changes nothing.
    pub fn set_search(&mut self, infos: Vec<APTInfo>) -> (goto: Option<Coord>)
        ensures
            final(self).spec_zoom() == old(self).spec_zoom(),
            final(self).spec_disp_rect() == old(self).spec_disp_rect(),
            infos@.len() == 0 ==> final(self).spec_state() == old(self).spec_state() && goto
                is None,
            infos@.len() == 1 ==> final(self).spec_state() == old(self).spec_state() && goto
                == Some(infos@[0].loc),
            infos@.len() > 1 ==> final(self).spec_state() == ChoiceState::Dialog(infos) && goto
                is None,
    {
        if infos.len() == 0 {
            None
        } else if infos.len() == 1 {
            Some(infos[0].loc)
        } else {
            self.state = ChoiceState::Dialog(infos);
            None
        }
    }

    /// Picking an entry from the dialog: the chosen record's location to
    /// pan to, and the choices close.
    pub fn pick(&mut self, index: usize) -> (goto: Option<Coord>)
        ensures
            final(self).spec_zoom() == old(self).spec_zoom(),
            final(self).spec_disp_rect() == old(self).spec_disp_rect(),
            final(self).spec_state() is Empty,
            goto == (match old(self).spec_state() {
                ChoiceState::Dialog(v) => if index < v@.len() {
                    Some(v@[index as int].loc)
                } else {
                    None::<Coord>
                },
                _ => None::<Coord>,
            }),
    {
        let goto = match &self.state {
            ChoiceState::Dialog(v) => if index < v.len() {
                Some(v[index].loc)
            } else {
                None
            },
            _ => None,
        };
        self.state = ChoiceState::Empty;
        goto
    }
}

} // verus!
