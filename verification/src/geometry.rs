//! Startup window geometry.
//!
//! The window takes up to 80% of the physical screen width in logical
//! pixels (physical width divided by the display scale factor), never less
//! than a floor of 800, and keeps a 16:9 aspect ratio. The scale factor
//! arrives as an exact rational `scale_num / scale_den`, and the computed
//! size is returned as exact rationals, so every step is carried out
//! without rounding.

use vstd::prelude::*;

verus! {

/// Minimum logical width of the window.
pub const MIN_WIDTH: u64 = 800;

/// The computed window size, as exact rationals `width_num / width_den`
/// and `height_num / height_den` in logical pixels.
#[derive(Clone, Copy, Debug)]
pub struct WindowSize {
    pub width_num: u128,
    pub width_den: u128,
    pub height_num: u128,
    pub height_den: u128,
}

impl WindowSize {
    /// The denominators are positive, so the two rationals are well formed.
    pub open spec fn wf(self) -> bool {
        self.width_den > 0 && self.height_den > 0
    }
}

/// Size the window for a screen `screen_width` physical pixels wide at
/// scale factor `scale_num / scale_den`: width is the larger of
/// `screen_width * 0.8 / scale` and the 800-pixel floor, and height is
/// `width * 9 / 16`.
pub fn window_size(screen_width: u32, scale_num: u64, scale_den: u64) -> (g: WindowSize)
    requires
        scale_num >= 1,
        scale_den >= 1,
    ensures
        g.wf(),
        // width = max(screen_width * 4 * scale_den / (5 * scale_num), 800), exactly
        (if screen_width * 4 * scale_den >= 4000 * scale_num {
            g.width_num == screen_width * 4 * scale_den && g.width_den == 5 * scale_num
        } else {
            g.width_num == 800 && g.width_den == 1
        }),
        g.height_num == g.width_num * 9,
        g.height_den == g.width_den * 16,
{
    let sw: u128 = screen_width as u128;
    let sd: u128 = scale_den as u128;
    proof {
        assert(sw * 4 * sd <= 0xffff_ffff * 4 * 0xffff_ffff_ffff_ffff) by (nonlinear_arith)
            requires
                sw <= 0xffff_ffff,
                sd <= 0xffff_ffff_ffff_ffff,
        ;
    }
    let wide: u128 = sw * 4 * sd;
    let floor: u128 = 4000 * (scale_num as u128);
    let (width_num, width_den): (u128, u128) = if wide >= floor {
        (wide, 5 * (scale_num as u128))
    } else {
        (800, 1)
    };
    proof {
        assert(width_num * 9 <= 0xffff_ffff * 4 * 0xffff_ffff_ffff_ffff * 9) by (nonlinear_arith)
            requires
                width_num <= 0xffff_ffff * 4 * 0xffff_ffff_ffff_ffff,
        ;
    }
    WindowSize {
        width_num,
        width_den,
        height_num: width_num * 9,
        height_den: width_den * 16,
    }
}

} // verus!
