//! Display geometry: fitting the window to the camera's aspect ratio and
//! choosing between an exact-copy and a scaled blit.

use vstd::prelude::*;

verus! {

/// Target aspect ratio, kept as the exact ratio of the camera's native
/// resolution rather than a rounded quotient.
#[derive(Clone, Copy, PartialEq, Eq, Structural, Debug)]
pub struct AspectRatio {
    pub width: u32,
    pub height: u32,
}

impl AspectRatio {
    pub open spec fn wf(self) -> bool {
        self.width >= 1 && self.height >= 1
    }
}

/// The window size nearest the target aspect ratio that fits the current
/// window: scale the height by the aspect to get a candidate width; when the
/// candidate exceeds the current width, keep the width and derive the height
/// instead (fit to the constraining dimension).
pub open spec fn spec_fitted_size(width: u32, height: u32, aspect: AspectRatio) -> (int, int) {
    if height * aspect.width > width * aspect.height {
        (width as int, (width * aspect.height) / (aspect.width as int))
    } else {
        ((height * aspect.width) / (aspect.height as int), height as int)
    }
}

/// Computes the nearest same-aspect window size for the current size.
/// Returns `None` when the window already has that size (the caller treats
/// this as the signal to stop reacting to pending resize events), else the
/// size to resize to.
pub fn set_closest_aspect(width: u32, height: u32, aspect: AspectRatio) -> (r: Option<(u32, u32)>)
    requires
        aspect.wf(),
    ensures
        ({
            let (fw, fh) = spec_fitted_size(width, height, aspect);
            match r {
                None => fw == width && fh == height,
                Some((nw, nh)) => nw == fw && nh == fh && !(fw == width && fh == height),
            }
        }),
{
    let w = width as u64;
    let h = height as u64;
    let aw = aspect.width as u64;
    let ah = aspect.height as u64;

    proof {
        assert(h * aw <= 0xFFFF_FFFFu64 * 0xFFFF_FFFFu64 && w * ah <= 0xFFFF_FFFFu64
            * 0xFFFF_FFFFu64) by (nonlinear_arith)
            requires
                w <= 0xFFFF_FFFFu64,
                h <= 0xFFFF_FFFFu64,
                aw <= 0xFFFF_FFFFu64,
                ah <= 0xFFFF_FFFFu64,
        ;
    }
    let (new_width, new_height): (u32, u32) = if h * aw > w * ah {
        let nh = (w * ah) / aw;
        proof {
            assert(nh < h) by (nonlinear_arith)
                requires
                    nh == (w as int * ah as int) / (aw as int),
                    h * aw > w * ah,
                    aw >= 1,
                    w >= 0,
                    h >= 0,
                    ah >= 0,
            ;
        }
        (width, nh as u32)
    } else {
        let nw = (h * aw) / ah;
        proof {
            assert(nw <= w) by (nonlinear_arith)
                requires
                    nw == (h as int * aw as int) / (ah as int),
                    h * aw <= w * ah,
                    ah >= 1,
                    w >= 0,
                    h >= 0,
                    aw >= 0,
            ;
        }
        (nw as u32, height)
    };

    if new_width == width && new_height == height {
        None
    } else {
        Some((new_width, new_height))
    }
}

/// True exactly when the decoded frame's dimensions equal the drawable
/// rectangle's, which selects the pixel-for-pixel copy over the scaled
/// stretch and drives the informational title tag.
pub fn is_same_size(frame_width: u32, frame_height: u32, draw_width: u32, draw_height: u32) -> (r:
    bool)
    ensures
        r == (frame_width == draw_width && frame_height == draw_height),
{
    frame_width == draw_width && frame_height == draw_height
}

} // verus!
