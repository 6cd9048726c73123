//! A managed client window: the window itself and the frame around it.
use vstd::prelude::*;

use crate::action::{grabbed, Bounds, XAction};

verus! {

/// A client window as the window manager keeps it.
#[derive(Debug)]
pub struct WindowState {
    pub frame: u32,
    pub window: u32,
    pub title: String,
    pub visible: bool,
    pub urgent: bool,
    pub x: i32,
    pub y: i32,
    pub width: u32,
    pub height: u32,
    pub border_width: u32,
    pub gap_size: u32,
}

/// Whether placing a window with this border and gap into `b` stays within
/// the integer ranges: the frame is inset by the gap, the client window by
/// the gap and the border, on every side.
pub open spec fn bounds_fit(border: u32, gap: u32, b: Bounds) -> bool {
    &&& 2 * gap <= u32::MAX
    &&& 2 * border <= u32::MAX
    &&& border + gap <= u32::MAX
    &&& i32::MIN <= b.x + (gap as i32) <= i32::MAX
    &&& i32::MIN <= b.y + (gap as i32) <= i32::MAX
    &&& i32::MIN <= b.x + ((border + gap) as i32) <= i32::MAX
    &&& i32::MIN <= b.y + ((border + gap) as i32) <= i32::MAX
    &&& 2 * border + 2 * gap <= b.width
    &&& 2 * border + 2 * gap <= b.height
}

/// The two requests that place the frame and the client window into `b`.
pub open spec fn bounds_actions(frame: u32, window: u32, border: u32, gap: u32, b: Bounds) -> Seq<
    XAction,
> {
    seq![
        XAction::Configure {
            window: frame,
            x: (b.x + (gap as i32)) as i32,
            y: (b.y + (gap as i32)) as i32,
            width: (b.width - 2 * gap) as u32,
            height: (b.height - 2 * gap) as u32,
        },
        XAction::Configure {
            window: window,
            x: (b.x + ((border + gap) as i32)) as i32,
            y: (b.y + ((border + gap) as i32)) as i32,
            width: (b.width - 2 * border - 2 * gap) as u32,
            height: (b.height - 2 * border - 2 * gap) as u32,
        },
    ]
}

impl WindowState {
    /// A window that the X server has framed with `frame`; it starts visible,
    /// not urgent, at the origin and with no size.
    pub fn new(frame: u32, window: u32, title: String, border_width: u32, gap_size: u32) -> (r:
        WindowState)
        ensures
            r.frame == frame,
            r.window == window,
            r.title == title,
            r.visible,
            !r.urgent,
            r.x == 0 && r.y == 0 && r.width == 0 && r.height == 0,
            r.border_width == border_width,
            r.gap_size == gap_size,
    {
        WindowState {
            frame,
            window,
            title,
            visible: true,
            urgent: false,
            x: 0,
            y: 0,
            width: 0,
            height: 0,
            border_width,
            gap_size,
        }
    }

    /// Whether `b` fits this window's border and gap.
    pub open spec fn fits(&self, b: Bounds) -> bool {
        bounds_fit(self.border_width, self.gap_size, b)
    }

    /// Whether `b` fits this window's border and gap.
    pub fn fits_bounds(&self, b: Bounds) -> (r: bool)
        ensures
            r == self.fits(b),
    {
        let gap = self.gap_size as i64;
        let border = self.border_width as i64;
        if 2 * gap > u32::MAX as i64 || 2 * border > u32::MAX as i64 || border + gap > u32::MAX as i64 {
            return false;
        }
        let g = (self.gap_size as i32) as i64;
        let bg = ((self.border_width + self.gap_size) as i32) as i64;
        let x = b.x as i64;
        let y = b.y as i64;
        let lo = i32::MIN as i64;
        let hi = i32::MAX as i64;
        lo <= x + g && x + g <= hi && lo <= y + g && y + g <= hi && lo <= x + bg && x + bg <= hi
            && lo <= y + bg && y + bg <= hi && 2 * border + 2 * gap <= b.width as i64 && 2 * border + 2
            * gap <= b.height as i64
    }

    /// The requests that place this window into `b`.
    pub open spec fn placed(&self, b: Bounds) -> Seq<XAction> {
        bounds_actions(self.frame, self.window, self.border_width, self.gap_size, b)
    }

    /// The requests that show this window with its frame, with the server
    /// held while both are mapped.
    pub open spec fn drawn(&self) -> Seq<XAction> {
        grabbed(
            seq![XAction::MapWindow { window: self.frame }, XAction::MapWindow { window: self.window }],
        )
    }

    /// The requests that show this window without its frame.
    pub open spec fn drawn_frameless(&self) -> Seq<XAction> {
        seq![XAction::MapWindow { window: self.window }]
    }

    /// Places the frame into `b`, inset by the gap, and the client window
    /// inside it, inset by the border as well.
    pub fn set_bounds(&self, b: Bounds, actions: &mut Vec<XAction>)
        requires
            self.fits(b),
        ensures
            final(actions)@ == old(actions)@ + self.placed(b),
    {
        let gap = self.gap_size;
        let border = self.border_width;
        let frame_action = XAction::Configure {
            window: self.frame,
            x: b.x + (gap as i32),
            y: b.y + (gap as i32),
            width: b.width - gap * 2,
            height: b.height - gap * 2,
        };
        let window_action = XAction::Configure {
            window: self.window,
            x: b.x + ((border + gap) as i32),
            y: b.y + ((border + gap) as i32),
            width: b.width - border * 2 - gap * 2,
            height: b.height - border * 2 - gap * 2,
        };
        actions.push(frame_action);
        actions.push(window_action);
        assert(actions@ =~= old(actions)@ + self.placed(b));
    }

    /// Holds the server, shows the frame and then the client window, and
    /// lets the server go.
    pub fn draw(&self, actions: &mut Vec<XAction>)
        ensures
            final(actions)@ == old(actions)@ + self.drawn(),
    {
        actions.push(XAction::GrabServer);
        actions.push(XAction::MapWindow { window: self.frame });
        actions.push(XAction::MapWindow { window: self.window });
        actions.push(XAction::UngrabServer);
        assert(actions@ =~= old(actions)@ + self.drawn());
    }

    /// Shows the client window alone.
    pub fn draw_frameless(&self, actions: &mut Vec<XAction>)
        ensures
            final(actions)@ == old(actions)@ + self.drawn_frameless(),
    {
        actions.push(XAction::MapWindow { window: self.window });
        assert(actions@ =~= old(actions)@ + self.drawn_frameless());
    }
}

} // verus!
