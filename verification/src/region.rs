//! The region selection overlay: its state, and what each window message does to it.

use vstd::prelude::*;
use crate::geometry::{
    clamp_point_to_rect, spec_clamp_point_to_rect, Point, Rect,
};

verus! {

/// Virtual-key code of the Escape key.
pub const VK_ESCAPE: u16 = 0x1B;

/// The state of a region selection on one monitor. Points are in client
/// coordinates of the overlay window, which covers the monitor.
pub struct RegionSelectionState {
    /// The monitor being selected on, in screen coordinates.
    pub monitor_rect: Rect,
    /// Where the left button went down.
    pub anchor: Option<Point>,
    /// Where the pointer is while the button is held.
    pub current: Option<Point>,
    /// The selected region in screen coordinates, once the button is released.
    pub result: Option<Rect>,
    /// Whether the selection is over (done or cancelled).
    pub finished: bool,
}

/// A window message that the overlay acts on.
#[derive(Debug, Clone, Copy, PartialEq, Eq, Structural)]
pub enum SelectorEvent {
    /// `WM_LBUTTONDOWN` at a client point.
    LeftButtonDown(Point),
    /// `WM_MOUSEMOVE` at a client point.
    MouseMove(Point),
    /// `WM_LBUTTONUP` at a client point.
    LeftButtonUp(Point),
    /// `WM_RBUTTONDOWN`.
    RightButtonDown,
    /// `WM_KEYDOWN` or `WM_SYSKEYDOWN` with this virtual-key code.
    KeyDown(u16),
    /// `WM_DESTROY`.
    Destroy,
}

/// What the window procedure does besides changing the state.
#[derive(Debug, Clone, Copy, PartialEq, Eq, Structural)]
pub struct SelectorAction {
    /// Capture the mouse (`SetCapture`).
    pub capture_mouse: bool,
    /// Release the mouse (`ReleaseCapture`).
    pub release_mouse: bool,
    /// Reshape and repaint the overlay.
    pub redraw: bool,
    /// Close the overlay (`DestroyWindow`).
    pub destroy_window: bool,
    /// Leave the message to the default window procedure.
    pub default_handling: bool,
}

pub open spec fn no_action() -> SelectorAction {
    SelectorAction {
        capture_mouse: false,
        release_mouse: false,
        redraw: false,
        destroy_window: false,
        default_handling: false,
    }
}

/// Whether a point lies in `bounds`, edges included.
pub open spec fn point_in(p: Point, bounds: Rect) -> bool {
    bounds.left <= p.x <= bounds.right && bounds.top <= p.y <= bounds.bottom
}

impl RegionSelectionState {
    /// The overlay's client area: the monitor's size at the origin.
    pub open spec fn spec_client_bounds(&self) -> Rect {
        Rect {
            left: 0,
            top: 0,
            right: self.monitor_rect.spec_width() as i32,
            bottom: self.monitor_rect.spec_height() as i32,
        }
    }

    /// The rectangle between the anchor and the current point.
    pub open spec fn spec_current_client_rect(&self) -> Option<Rect> {
        match (self.anchor, self.current) {
            (Some(a), Some(c)) => Some(Rect::spec_from_points(a, c)),
            _ => None,
        }
    }

    /// The selection drawn on the overlay: the current rectangle, if it
    /// covers any pixel.
    pub open spec fn spec_visible_selection(&self) -> Option<Rect> {
        match self.spec_current_client_rect() {
            Some(r) => if r.spec_is_empty() {
                None
            } else {
                Some(r)
            },
            None => None,
        }
    }

    /// The selection in screen coordinates, if it covers any pixel.
    pub open spec fn spec_selected_region(&self) -> Option<Rect> {
        match self.spec_visible_selection() {
            Some(r) => Some(
                Rect {
                    left: (r.left + self.monitor_rect.left) as i32,
                    top: (r.top + self.monitor_rect.top) as i32,
                    right: (r.right + self.monitor_rect.left) as i32,
                    bottom: (r.bottom + self.monitor_rect.top) as i32,
                },
            ),
            None => None,
        }
    }

    /// What holds of every state the overlay goes through: the monitor has
    /// the shape of a monitor rectangle, the points lie in the client area, a
    /// current point exists once there is an anchor, and a selected region
    /// covers some pixel of the monitor.
    pub open spec fn inv(&self) -> bool {
        &&& self.monitor_rect.is_monitor_shaped()
        &&& (self.anchor matches Some(a) ==> point_in(a, self.spec_client_bounds()))
        &&& (self.current matches Some(c) ==> point_in(c, self.spec_client_bounds()))
        &&& (self.anchor is Some ==> self.current is Some)
        &&& (self.result matches Some(r) ==> !r.spec_is_empty() && r.within(self.monitor_rect))
    }

    /// A selection that has not started.
    pub fn new(monitor_rect: Rect) -> (s: Self)
        ensures
            s.monitor_rect == monitor_rect,
            s.anchor is None,
            s.current is None,
            s.result is None,
            !s.finished,
            monitor_rect.is_monitor_shaped() ==> s.inv(),
    {
        RegionSelectionState {
            monitor_rect,
            anchor: None,
            current: None,
            result: None,
            finished: false,
        }
    }

    /// The overlay's client area.
    pub fn client_bounds(&self) -> (b: Rect)
        ensures
            b == self.spec_client_bounds(),
    {
        Rect {
            left: 0,
            top: 0,
            right: self.monitor_rect.width() as i32,
            bottom: self.monitor_rect.height() as i32,
        }
    }

    /// The rectangle between the anchor and the current point.
    pub fn current_client_rect(&self) -> (r: Option<Rect>)
        ensures
            r == self.spec_current_client_rect(),
    {
        match (self.anchor, self.current) {
            (Some(a), Some(c)) => Some(Rect::from_points(a, c)),
            _ => None,
        }
    }

    /// The selection drawn on the overlay, if it covers any pixel.
    pub fn visible_selection(&self) -> (r: Option<Rect>)
        ensures
            r == self.spec_visible_selection(),
    {
        match self.current_client_rect() {
            Some(r) => if r.is_empty() {
                None
            } else {
                Some(r)
            },
            None => None,
        }
    }

    /// What a window message does to the selection, and what the window
    /// procedure does besides.
    pub open spec fn spec_step(self, event: SelectorEvent) -> (RegionSelectionState, SelectorAction) {
        let bounds = self.spec_client_bounds();
        match event {
            SelectorEvent::LeftButtonDown(p) => {
                let q = spec_clamp_point_to_rect(p, bounds);
                (
                    RegionSelectionState { anchor: Some(q), current: Some(q), ..self },
                    SelectorAction { capture_mouse: true, redraw: true, ..no_action() },
                )
            },
            SelectorEvent::MouseMove(p) => if self.anchor is Some {
                (
                    RegionSelectionState {
                        current: Some(spec_clamp_point_to_rect(p, bounds)),
                        ..self
                    },
                    SelectorAction { redraw: true, ..no_action() },
                )
            } else {
                (self, no_action())
            },
            SelectorEvent::LeftButtonUp(p) => if self.anchor is Some {
                let moved = RegionSelectionState {
                    current: Some(spec_clamp_point_to_rect(p, bounds)),
                    ..self
                };
                (
                    RegionSelectionState {
                        result: moved.spec_selected_region(),
                        finished: true,
                        ..moved
                    },
                    SelectorAction { release_mouse: true, destroy_window: true, ..no_action() },
                )
            } else {
                (self, SelectorAction { release_mouse: true, ..no_action() })
            },
            SelectorEvent::RightButtonDown => (
                RegionSelectionState { result: None, finished: true, ..self },
                SelectorAction { release_mouse: true, destroy_window: true, ..no_action() },
            ),
            SelectorEvent::KeyDown(key) => if key == VK_ESCAPE {
                (
                    RegionSelectionState { result: None, finished: true, ..self },
                    SelectorAction { release_mouse: true, destroy_window: true, ..no_action() },
                )
            } else {
                (self, SelectorAction { default_handling: true, ..no_action() })
            },
            SelectorEvent::Destroy => (RegionSelectionState { finished: true, ..self }, no_action()),
        }
    }

    /// Handles one window message of the overlay.
    pub fn handle(&mut self, event: SelectorEvent) -> (action: SelectorAction)
        requires
            old(self).inv(),
        ensures
            (*final(self), action) == old(self).spec_step(event),
            final(self).inv(),
    {
        let bounds = self.client_bounds();
        match event {
            SelectorEvent::LeftButtonDown(p) => {
                let q = clamp_point_to_rect(p, bounds);
                self.anchor = Some(q);
                self.current = Some(q);
                SelectorAction {
                    capture_mouse: true,
                    release_mouse: false,
                    redraw: true,
                    destroy_window: false,
                    default_handling: false,
                }
            },
            SelectorEvent::MouseMove(p) => {
                if self.anchor.is_some() {
                    self.current = Some(clamp_point_to_rect(p, bounds));
                    SelectorAction {
                        capture_mouse: false,
                        release_mouse: false,
                        redraw: true,
                        destroy_window: false,
                        default_handling: false,
                    }
                } else {
                    SelectorAction {
                        capture_mouse: false,
                        release_mouse: false,
                        redraw: false,
                        destroy_window: false,
                        default_handling: false,
                    }
                }
            },
            SelectorEvent::LeftButtonUp(p) => {
                if self.anchor.is_some() {
                    self.current = Some(clamp_point_to_rect(p, bounds));
                    let selected = match self.visible_selection() {
                        Some(r) => {
                            assert(r.within(bounds));
                            Some(r.offset(self.monitor_rect.left, self.monitor_rect.top))
                        },
                        None => None,
                    };
                    self.result = selected;
                    self.finished = true;
                    SelectorAction {
                        capture_mouse: false,
                        release_mouse: true,
                        redraw: false,
                        destroy_window: true,
                        default_handling: false,
                    }
                } else {
                    SelectorAction {
                        capture_mouse: false,
                        release_mouse: true,
                        redraw: false,
                        destroy_window: false,
                        default_handling: false,
                    }
                }
            },
            SelectorEvent::RightButtonDown => {
                self.result = None;
                self.finished = true;
                SelectorAction {
                    capture_mouse: false,
                    release_mouse: true,
                    redraw: false,
                    destroy_window: true,
                    default_handling: false,
                }
            },
            SelectorEvent::KeyDown(key) => {
                if key == VK_ESCAPE {
                    self.result = None;
                    self.finished = true;
                    SelectorAction {
                        capture_mouse: false,
                        release_mouse: true,
                        redraw: false,
                        destroy_window: true,
                        default_handling: false,
                    }
                } else {
                    SelectorAction {
                        capture_mouse: false,
                        release_mouse: false,
                        redraw: false,
                        destroy_window: false,
                        default_handling: true,
                    }
                }
            },
            SelectorEvent::Destroy => {
                self.finished = true;
                SelectorAction {
                    capture_mouse: false,
                    release_mouse: false,
                    redraw: false,
                    destroy_window: false,
                    default_handling: false,
                }
            },
        }
    }

    /// The hole cut into the overlay so the selected area shows through: the
    /// drawn selection shrunk by one pixel on each side, if anything is left.
    pub open spec fn spec_selection_hole(&self) -> Option<Rect> {
        match self.spec_visible_selection() {
            Some(r) => {
                let t = Rect {
                    left: (r.left + 1) as i32,
                    top: (r.top + 1) as i32,
                    right: (r.right - 1) as i32,
                    bottom: (r.bottom - 1) as i32,
                };
                if t.spec_is_empty() {
                    None
                } else {
                    Some(t)
                }
            },
            None => None,
        }
    }

    /// The hole cut into the overlay so the selected area shows through.
    pub fn selection_hole(&self) -> (h: Option<Rect>)
        requires
            self.inv(),
        ensures
            h == self.spec_selection_hole(),
    {
        match self.visible_selection() {
            Some(r) => {
                let t = r.inset(1);
                if t.is_empty() {
                    None
                } else {
                    Some(t)
                }
            },
            None => None,
        }
    }
}

} // verus!
