//! State of the drop-down layer surface and the decisions taken on its events.

use vstd::prelude::*;

verus! {

/// What the surface knows about itself between compositor events.
#[derive(Clone, Copy, Debug, PartialEq, Eq, Structural)]
pub struct SurfaceState {
    pub screen_width: u32,
    pub configured: bool,
    pub height_percent: u8,
    pub visible: bool,
    pub keyboard_bound: bool,
}

/// What to do with the surface after the visibility flag was read.
#[derive(Clone, Copy, Debug, PartialEq, Eq, Structural)]
pub enum ToggleAction {
    /// The surface already has the wanted visibility.
    Unchanged,
    /// Draw a frame and show it.
    Show,
    /// Detach the buffer so the surface shows nothing.
    Hide,
}

/// Sizes of one frame's shared-memory buffer.
#[derive(Clone, Copy, Debug, PartialEq, Eq, Structural)]
pub struct FrameGeometry {
    pub width: u32,
    pub height: u32,
    pub stride: u32,
    pub pool_len: usize,
}

/// Height of the surface: `height_percent` percent of 600 pixels.
pub open spec fn spec_target_height(height_percent: u8) -> u32 {
    (600 * height_percent / 100) as u32
}

/// The state and action after the visibility flag was read as `want`.
pub open spec fn spec_toggle(s: SurfaceState, want: bool) -> (SurfaceState, ToggleAction) {
    if want == s.visible {
        (s, ToggleAction::Unchanged)
    } else if want {
        (SurfaceState { visible: true, ..s }, ToggleAction::Show)
    } else {
        (SurfaceState { visible: false, ..s }, ToggleAction::Hide)
    }
}

/// The buffer sizes of a frame, if the surface can be drawn: it must be
/// configured, and `4 * width * height` must fit in 32 bits, where the width
/// and height are the screen width and target height raised to at least 1.
pub open spec fn spec_frame_geometry(s: SurfaceState) -> Option<FrameGeometry> {
    let w: int = if s.screen_width >= 1 {
        s.screen_width as int
    } else {
        1
    };
    let t = spec_target_height(s.height_percent) as int;
    let h: int = if t >= 1 {
        t
    } else {
        1
    };
    if s.configured && 4 * w * h <= u32::MAX {
        Some(
            FrameGeometry {
                width: w as u32,
                height: h as u32,
                stride: (4 * w) as u32,
                pool_len: (4 * w * h) as usize,
            },
        )
    } else {
        None
    }
}

impl SurfaceState {
    /// A surface not configured yet, hidden, assuming a 1920-pixel-wide screen.
    pub fn new(height_percent: u8) -> (s: SurfaceState)
        ensures
            s == (SurfaceState {
                screen_width: 1920,
                configured: false,
                height_percent,
                visible: false,
                keyboard_bound: false,
            }),
    {
        SurfaceState {
            screen_width: 1920,
            configured: false,
            height_percent,
            visible: false,
            keyboard_bound: false,
        }
    }

    /// Height of the surface in pixels.
    pub fn target_height(&self) -> (h: u32)
        ensures
            h == spec_target_height(self.height_percent),
    {
        600 * (self.height_percent as u32) / 100
    }

    /// An output reported its current mode, `width` pixels wide.
    pub fn output_mode(&mut self, width: i32)
        ensures
            *final(self) == (SurfaceState { screen_width: width as u32, ..*old(self) }),
    {
        self.screen_width = width as u32;
    }

    /// The compositor configured the surface with width `new_width` (0 means
    /// "keep yours"); returns whether a frame must be drawn now.
    pub fn configure(&mut self, new_width: u32) -> (redraw: bool)
        ensures
            final(self).screen_width == (if new_width > 0 {
                new_width
            } else {
                old(self).screen_width
            }),
            final(self).configured,
            final(self).height_percent == old(self).height_percent,
            final(self).visible == old(self).visible,
            final(self).keyboard_bound == old(self).keyboard_bound,
            redraw == old(self).visible,
    {
        if new_width > 0 {
            self.screen_width = new_width;
        }
        self.configured = true;
        self.visible
    }

    /// Brings the surface to the visibility `want_visible` read from the
    /// toggle flag, and says what has to be done to the surface.
    pub fn apply_toggle(&mut self, want_visible: bool) -> (action: ToggleAction)
        ensures
            (*final(self), action) == spec_toggle(*old(self), want_visible),
    {
        if want_visible == self.visible {
            return ToggleAction::Unchanged;
        }
        self.visible = want_visible;
        if want_visible {
            ToggleAction::Show
        } else {
            ToggleAction::Hide
        }
    }

    /// Buffer sizes for the next frame; `None` while the surface is not
    /// configured or when the buffer would not fit in 32 bits.
    pub fn frame_geometry(&self) -> (g: Option<FrameGeometry>)
        ensures
            g == spec_frame_geometry(*self),
    {
        if !self.configured {
            return None;
        }
        let width: u32 = if self.screen_width >= 1 {
            self.screen_width
        } else {
            1
        };
        let t = self.target_height();
        let height: u32 = if t >= 1 {
            t
        } else {
            1
        };
        let w = width as u128;
        let h = height as u128;
        assert(4 * w * h <= 4 * 0xffff_ffffu128 * 0xffff_ffffu128) by (nonlinear_arith)
            requires
                w <= 0xffff_ffff,
                h <= 0xffff_ffff,
        ;
        let bytes: u128 = 4 * w * h;
        if bytes > 0xffff_ffff {
            return None;
        }
        assert(4 * w <= bytes) by (nonlinear_arith)
            requires
                bytes == 4 * w * h,
                h >= 1,
        ;
        Some(
            FrameGeometry {
                width,
                height,
                stride: 4 * width,
                pool_len: bytes as usize,
            },
        )
    }

    /// A seat gained a capability; returns whether to bind its keyboard now
    /// (only the first keyboard is bound).
    pub fn capability_added(&mut self, is_keyboard: bool) -> (bind: bool)
        ensures
            bind == (is_keyboard && !old(self).keyboard_bound),
            *final(self) == (SurfaceState {
                keyboard_bound: old(self).keyboard_bound || is_keyboard,
                ..*old(self)
            }),
    {
        if is_keyboard && !self.keyboard_bound {
            self.keyboard_bound = true;
            return true;
        }
        false
    }

    /// A seat lost a capability; losing the keyboard releases it.
    pub fn capability_removed(&mut self, is_keyboard: bool)
        ensures
            *final(self) == (SurfaceState {
                keyboard_bound: old(self).keyboard_bound && !is_keyboard,
                ..*old(self)
            }),
    {
        if is_keyboard {
            self.keyboard_bound = false;
        }
    }
}

/// Law: after reading the flag the surface has the wanted visibility, and
/// reading the same value again changes nothing.
pub proof fn lemma_toggle_settles(s: SurfaceState, want: bool)
    ensures
        spec_toggle(s, want).0.visible == want,
        spec_toggle(spec_toggle(s, want).0, want) == (spec_toggle(s, want).0, ToggleAction::Unchanged),
        spec_toggle(s, want).1 == ToggleAction::Unchanged <==> s.visible == want,
{
}

/// Law: flipping the flag twice between two reads leaves the surface as it was.
pub proof fn lemma_double_flip_is_noop(s: SurfaceState)
    ensures
        spec_toggle(s, !!s.visible) == (s, ToggleAction::Unchanged),
{
}

/// Law: the surface height grows with the percentage, and 100 percent is 600 pixels.
pub proof fn lemma_target_height_monotonic(a: u8, b: u8)
    ensures
        a <= b ==> spec_target_height(a) <= spec_target_height(b),
        spec_target_height(100) == 600,
        spec_target_height(a) <= 1530,
{
    assert(a <= b ==> 600 * a / 100 <= 600 * b / 100) by (nonlinear_arith);
}

/// Law: once configured, a frame can be drawn on any screen up to 16384
/// pixels wide, and its buffer holds exactly `stride * height` bytes.
pub proof fn lemma_frame_geometry_available(s: SurfaceState)
    requires
        s.configured,
        s.screen_width <= 16384,
    ensures
        spec_frame_geometry(s) matches Some(g) && g.pool_len == g.stride * g.height && g.stride
            == 4 * g.width,
{
    let t = spec_target_height(s.height_percent) as int;
    assert(t <= 1530) by (nonlinear_arith)
        requires
            t == 600 * s.height_percent / 100,
            s.height_percent <= 255,
    ;
    let w: int = if s.screen_width >= 1 { s.screen_width as int } else { 1 };
    let h: int = if t >= 1 { t } else { 1 };
    assert(4 * w * h <= 4 * 16384 * 1530) by (nonlinear_arith)
        requires
            1 <= w <= 16384,
            1 <= h <= 1530,
    ;
}

} // verus!
