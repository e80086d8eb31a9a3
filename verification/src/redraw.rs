//! When the interface draws a frame: the redraw flag, and whether anything
//! is animating (which makes the event loop poll fast).
use vstd::prelude::*;

verus! {

/// The parts of the interface state that decide when to draw.
#[derive(Clone, Copy, PartialEq, Eq, Debug, Structural)]
pub struct FrameState {
    /// Something visible changed since the last frame.
    pub needs_redraw: bool,
    /// A fetch cycle is running (its spinner turns).
    pub is_loading: bool,
    pub is_refreshing: bool,
    /// A discovery search is running.
    pub discovery_loading: bool,
    /// The "Saved." indicator of the settings is still showing.
    pub settings_saving: bool,
    /// The repository viewer is still scrolling from momentum.
    pub momentum_scrolling: bool,
}

impl FrameState {
    /// Nothing running, and the first frame still to draw.
    pub fn new() -> (r: Self)
        ensures
            r == (FrameState {
                needs_redraw: true,
                is_loading: false,
                is_refreshing: false,
                discovery_loading: false,
                settings_saving: false,
                momentum_scrolling: false,
            }),
    {
        FrameState {
            needs_redraw: true,
            is_loading: false,
            is_refreshing: false,
            discovery_loading: false,
            settings_saving: false,
            momentum_scrolling: false,
        }
    }

    /// Ask for a redraw.
    pub fn mark_dirty(&mut self)
        ensures
            *final(self) == (FrameState { needs_redraw: true, ..*old(self) }),
    {
        self.needs_redraw = true;
    }

    /// Read and clear the redraw flag: whether this frame is to be drawn.
    pub fn check_needs_redraw(&mut self) -> (r: bool)
        ensures
            r == old(self).needs_redraw,
            *final(self) == (FrameState { needs_redraw: false, ..*old(self) }),
    {
        let needs = self.needs_redraw;
        self.needs_redraw = false;
        needs
    }

    pub open spec fn spec_animating(self) -> bool {
        self.is_loading || self.is_refreshing || self.discovery_loading || self.settings_saving
            || self.momentum_scrolling
    }

    /// Whether something is in flight that needs the fast poll cadence.
    pub fn has_active_animation(&self) -> (r: bool)
        ensures
            r == self.spec_animating(),
    {
        self.is_loading || self.is_refreshing || self.discovery_loading || self.settings_saving
            || self.momentum_scrolling
    }
}

} // verus!
