//! The chat panel's frame.

use vstd::prelude::*;

verus! {

/// `v` kept within `lo..=hi`.
pub open spec fn clamp_spec(v: int, lo: int, hi: int) -> int {
    if v < lo {
        lo
    } else if v > hi {
        hi
    } else {
        v
    }
}

/// The panel's width while its left edge is dragged: the width when the
/// drag started plus how far the pointer moved left since, kept within 280
/// to 640 pixels.
pub fn resized_width(start_w: u32, start_x: i32, x: i32) -> (r: u32)
    requires
        i32::MIN <= start_x - x <= i32::MAX,
        i32::MIN <= (start_w as i32) + (start_x - x) <= i32::MAX,
    ensures
        r as int == clamp_spec((start_w as i32) + (start_x - x), 280, 640),
{
    let delta = start_x - x;
    let w = (start_w as i32) + delta;
    let c = if w < 280 {
        280
    } else if w > 640 {
        640
    } else {
        w
    };
    c as u32
}

/// The resizing of the panel by its left edge: whether a drag is on, where
/// the pointer and the width were when it began, and the current width.
#[derive(Debug, Clone, Copy, PartialEq, Eq, Structural)]
pub struct PanelDrag {
    pub dragging: bool,
    pub start_x: i32,
    pub start_w: u32,
    pub width: u32,
}

/// A move of the pointer to `x` can be computed without overflow.
pub open spec fn move_fits(s: PanelDrag, x: i32) -> bool {
    s.dragging ==> (i32::MIN <= s.start_x - x <= i32::MAX && i32::MIN <= (s.start_w as i32) + (s.start_x - x)
        <= i32::MAX)
}

/// The state after the mouse button went down on the edge at `x`.
pub open spec fn drag_pressed(s: PanelDrag, x: i32) -> PanelDrag {
    PanelDrag { dragging: true, start_x: x, start_w: s.width, ..s }
}

/// The state after the pointer moved to `x`: while a drag is on, the width
/// follows the pointer within 280 to 640 pixels; otherwise nothing changes.
pub open spec fn drag_moved(s: PanelDrag, x: i32) -> PanelDrag {
    if s.dragging {
        PanelDrag { width: clamp_spec((s.start_w as i32) + (s.start_x - x), 280, 640) as u32, ..s }
    } else {
        s
    }
}

/// The state after the button went up or the pointer left the panel.
pub open spec fn drag_released(s: PanelDrag) -> PanelDrag {
    PanelDrag { dragging: false, ..s }
}

impl PanelDrag {
    /// No drag, at the given width.
    pub fn new(width: u32) -> (r: Self)
        ensures
            r.width == width,
            !r.dragging,
    {
        PanelDrag { dragging: false, start_x: 0, start_w: width, width }
    }

    /// The mouse button went down on the panel's edge at `x`.
    pub fn press(&mut self, x: i32)
        ensures
            *final(self) == drag_pressed(*old(self), x),
    {
        self.dragging = true;
        self.start_x = x;
        self.start_w = self.width;
    }

    /// The pointer moved to `x`.
    pub fn move_to(&mut self, x: i32)
        requires
            move_fits(*old(self), x),
        ensures
            *final(self) == drag_moved(*old(self), x),
    {
        if self.dragging {
            self.width = resized_width(self.start_w, self.start_x, x);
        }
    }

    /// The button went up, or the pointer left the panel.
    pub fn release(&mut self)
        ensures
            *final(self) == drag_released(*old(self)),
    {
        self.dragging = false;
    }
}

/// Law: while a drag is on, every move leaves the width within 280 to 640
/// pixels, whatever it was before.
pub proof fn lemma_drag_width_bounded(s: PanelDrag, x: i32)
    requires
        s.dragging,
        move_fits(s, x),
    ensures
        280 <= drag_moved(s, x).width <= 640,
{
}

/// Law: once the button went up or the pointer left the panel, moves no
/// longer change the width, until the button goes down again.
pub proof fn lemma_release_stops_resizing(s: PanelDrag, x: i32)
    ensures
        drag_moved(drag_released(s), x) == drag_released(s),
        drag_moved(drag_released(s), x).width == s.width,
{
}

/// Law: a drag that ends where it began gives back the width it began
/// with, when that width is within 280 to 640 pixels.
pub proof fn lemma_drag_back_to_start(s: PanelDrag, x: i32)
    requires
        280 <= s.width <= 640,
    ensures
        drag_moved(drag_pressed(s, x), x).width == s.width,
{
}

} // verus!
