//! The viewport partitioner: on every resize notification (including the
//! one at startup), the render surface is split along the horizontal axis
//! into one region per active camera, in camera order.

use vstd::prelude::*;
use crate::camera::{CameraRig, ScreenRegion};

verus! {

/// Width of each region but the last: the surface divided evenly.
pub open spec fn slice_width(n: int, width: u32) -> int {
    width as int / n
}

/// The region assigned to camera `i` of `n`: origin at `i` slices, one
/// slice wide, except that the last camera takes the division remainder
/// too, so that the regions together tile the surface exactly.
pub open spec fn region_for(i: int, n: int, width: u32, height: u32) -> ScreenRegion {
    let w = slice_width(n, width);
    ScreenRegion {
        x: (i * w) as u32,
        y: 0,
        width: (if i == n - 1 {
            width as int - (n - 1) * w
        } else {
            w
        }) as u32,
        height,
    }
}

/// Assign every camera its region of the freshly resized surface. With no
/// active camera there is nothing to assign and the call is a skip.
pub fn set_camera_viewports(cameras: &mut Vec<CameraRig>, width: u32, height: u32)
    requires
        old(cameras).len() <= 0xFFFF_FFFF,
    ensures
        final(cameras).len() == old(cameras).len(),
        forall|i: int|
            0 <= i < old(cameras).len() ==> final(cameras)@[i] == (CameraRig {
                region: region_for(i, old(cameras).len() as int, width, height),
                ..old(cameras)@[i]
            }),
{
    let n: usize = cameras.len();
    if n == 0 {
        return ;
    }
    let nu: u32 = n as u32;
    let w: u32 = width / nu;
    proof {
        vstd::arithmetic::div_mod::lemma_fundamental_div_mod(width as int, nu as int);
    }
    let mut i: usize = 0;
    while i < n
        invariant
            0 < n == cameras.len() <= 0xFFFF_FFFF,
            nu == n as u32,
            w == slice_width(n as int, width),
            nu * w <= width,
            0 <= i <= n,
            forall|j: int|
                0 <= j < i ==> cameras@[j] == (CameraRig {
                    region: region_for(j, n as int, width, height),
                    ..old(cameras)@[j]
                }),
            forall|j: int| i <= j < n ==> cameras@[j] == old(cameras)@[j],
        decreases n - i,
    {
        proof {
            assert((i as int) * (w as int) <= (nu - 1) * (w as int) <= nu * w)
                by (nonlinear_arith)
                requires 0 <= i as int <= nu - 1, w as int >= 0, nu >= 1;
        }
        let rig = cameras[i];
        let x: u32 = (i as u32) * w;
        let rw: u32 = if i + 1 == n {
            width - (nu - 1) * w
        } else {
            w
        };
        cameras.set(i, CameraRig { region: ScreenRegion { x, y: 0, width: rw, height }, ..rig });
        i += 1;
    }
}

/// Viewport partition law: the assigned regions sit side by side in camera
/// order, never overlap, start at the left edge, and together tile the
/// surface exactly — each region ends where the next begins and the last
/// ends at the surface width, all at full surface height.
pub proof fn lemma_viewports_partition(n: int, width: u32, height: u32)
    requires
        1 <= n <= 0xFFFF_FFFF,
    ensures
        region_for(0, n, width, height).x == 0,
        forall|i: int|
            0 <= i < n ==> (#[trigger] region_for(i, n, width, height)).x as int == i
                * slice_width(n, width),
        forall|i: int|
            0 <= i < n - 1 ==> (#[trigger] region_for(i, n, width, height)).x
                + region_for(i, n, width, height).width == region_for(i + 1, n, width, height).x,
        region_for(n - 1, n, width, height).x + region_for(n - 1, n, width, height).width
            == width,
        forall|i: int|
            0 <= i < n ==> (#[trigger] region_for(i, n, width, height)).y == 0
                && region_for(i, n, width, height).height == height,
{
    let w = slice_width(n, width);
    vstd::arithmetic::div_mod::lemma_fundamental_div_mod(width as int, n);
    assert(0 <= n * w <= width) by (nonlinear_arith)
        requires width == n * w + (width as int % n), 0 <= width as int % n < n, n >= 1, w >= 0;
    assert forall|i: int| 0 <= i < n implies (#[trigger] region_for(i, n, width, height)).x as int
        == i * w by {
        assert(0 <= i * w <= (n - 1) * w <= n * w) by (nonlinear_arith)
            requires 0 <= i <= n - 1, w >= 0, n >= 1;
    }
    assert forall|i: int|
        0 <= i < n - 1 implies (#[trigger] region_for(i, n, width, height)).x + region_for(
        i,
        n,
        width,
        height,
    ).width == region_for(i + 1, n, width, height).x by {
        assert(0 <= i * w && (i + 1) * w == i * w + w && (i + 1) * w <= n * w)
            by (nonlinear_arith)
            requires 0 <= i <= n - 2, w >= 0, n >= 1;
    }
    assert(0 <= (n - 1) * w && (n - 1) * w == n * w - w) by (nonlinear_arith)
        requires w >= 0, n >= 1;
}

} // verus!
