use vstd::prelude::*;

verus! {

/// At most this many monitors get a row in the flyout.
pub const FLYOUT_MAX_MONITORS: usize = 4;

/// A window rectangle in screen pixels, edges as Windows reports them.
#[derive(Clone, Copy, Debug, PartialEq, Eq, Structural)]
pub struct Rect {
    pub left: i32,
    pub top: i32,
    pub right: i32,
    pub bottom: i32,
}

/// Division that rounds toward zero, as Rust's integer `/` does.
pub open spec fn trunc_div(a: int, b: int) -> int {
    if a >= 0 {
        a / b
    } else {
        -((-a) / b)
    }
}

pub open spec fn fits_i32(x: int) -> bool {
    i32::MIN <= x <= i32::MAX
}

/// The gap between the flyout and the work-area edge: 12 pixels at 96 DPI,
/// scaled to the window's DPI.
pub open spec fn spec_dpi_margin(dpi: u32) -> int {
    trunc_div((dpi as i32) * 12, 96)
}

pub fn dpi_margin(dpi: u32) -> (margin: i32)
    requires
        fits_i32((dpi as i32) * 12),
    ensures
        margin == spec_dpi_margin(dpi),
{
    let d = dpi as i32;
    d * 12 / 96
}

/// Where the flyout goes: its bottom-right corner `margin` pixels inside the
/// bottom-right corner of the work area.
pub open spec fn spec_flyout_origin(work: Rect, window: Rect, margin: i32) -> (int, int) {
    (
        work.right - (window.right - window.left) - margin,
        work.bottom - (window.bottom - window.top) - margin,
    )
}

pub fn flyout_origin(work: Rect, window: Rect, margin: i32) -> (origin: (i32, i32))
    requires
        fits_i32(window.right - window.left),
        fits_i32(work.right - (window.right - window.left)),
        fits_i32(work.right - (window.right - window.left) - margin),
        fits_i32(window.bottom - window.top),
        fits_i32(work.bottom - (window.bottom - window.top)),
        fits_i32(work.bottom - (window.bottom - window.top) - margin),
    ensures
        (origin.0 as int, origin.1 as int) == spec_flyout_origin(work, window, margin),
{
    let x = work.right - (window.right - window.left) - margin;
    let y = work.bottom - (window.bottom - window.top) - margin;
    (x, y)
}

/// A vertical slide of the flyout at a fixed `x`.
#[derive(Clone, Copy, Debug, PartialEq, Eq, Structural)]
pub struct Slide {
    pub x: i32,
    pub from_y: i32,
    pub to_y: i32,
}

pub open spec fn slide_fits(window: Rect, margin: i32) -> bool {
    &&& fits_i32(window.bottom - window.top)
    &&& fits_i32(window.top + (window.bottom - window.top))
    &&& fits_i32(window.top + (window.bottom - window.top) + margin)
}

/// Showing slides the window up into place from just below its own height
/// plus the margin.
pub open spec fn spec_slide_in(window: Rect, margin: i32) -> (int, int, int) {
    (window.left as int, window.top + (window.bottom - window.top) + margin, window.top as int)
}

/// Hiding slides the window from where it is down by its height plus the
/// margin.
pub open spec fn spec_slide_out(window: Rect, margin: i32) -> (int, int, int) {
    (window.left as int, window.top as int, window.top + (window.bottom - window.top) + margin)
}

pub fn slide_in(window: Rect, margin: i32) -> (slide: Slide)
    requires
        slide_fits(window, margin),
    ensures
        (slide.x as int, slide.from_y as int, slide.to_y as int) == spec_slide_in(window, margin),
{
    let height = window.bottom - window.top;
    Slide { x: window.left, from_y: window.top + height + margin, to_y: window.top }
}

pub fn slide_out(window: Rect, margin: i32) -> (slide: Slide)
    requires
        slide_fits(window, margin),
    ensures
        (slide.x as int, slide.from_y as int, slide.to_y as int) == spec_slide_out(window, margin),
{
    let height = window.bottom - window.top;
    Slide { x: window.left, from_y: window.top, to_y: window.top + height + margin }
}

/// The outer size the window needs for a client area of `client_w` by
/// `client_h` pixels, keeping its current frame; `None` when it has that size
/// already.
pub open spec fn spec_resize_for_client(client_w: i32, client_h: i32, outer: Rect, client: Rect) -> Option<(int, int)> {
    let outer_w = outer.right - outer.left;
    let outer_h = outer.bottom - outer.top;
    let want_w = client_w + (outer_w - (client.right - client.left));
    let want_h = client_h + (outer_h - (client.bottom - client.top));
    if outer_w != want_w || outer_h != want_h {
        Some((want_w, want_h))
    } else {
        None
    }
}

pub fn resize_for_client(client_w: i32, client_h: i32, outer: Rect, client: Rect) -> (size: Option<(i32, i32)>)
    requires
        fits_i32(outer.right - outer.left),
        fits_i32(outer.bottom - outer.top),
        fits_i32(client.right - client.left),
        fits_i32(client.bottom - client.top),
        fits_i32((outer.right - outer.left) - (client.right - client.left)),
        fits_i32((outer.bottom - outer.top) - (client.bottom - client.top)),
        fits_i32(client_w + ((outer.right - outer.left) - (client.right - client.left))),
        fits_i32(client_h + ((outer.bottom - outer.top) - (client.bottom - client.top))),
    ensures
        match size {
            Some((w, h)) => spec_resize_for_client(client_w, client_h, outer, client) == Some((w as int, h as int)),
            None => spec_resize_for_client(client_w, client_h, outer, client) is None,
        },
{
    let outer_w = outer.right - outer.left;
    let outer_h = outer.bottom - outer.top;
    let want_w = client_w + (outer_w - (client.right - client.left));
    let want_h = client_h + (outer_h - (client.bottom - client.top));
    if outer_w != want_w || outer_h != want_h {
        Some((want_w, want_h))
    } else {
        None
    }
}

/// The flyout is sized for one row per monitor, and one row when there is none
/// (the row that says so).
pub fn row_count(monitors: usize) -> (rows: usize)
    ensures
        rows == (if monitors == 0 { 1 } else { monitors }),
{
    if monitors == 0 {
        1
    } else {
        monitors
    }
}

/// How many monitors get a slider: all of them, up to `FLYOUT_MAX_MONITORS`.
pub fn slider_count(monitors: usize) -> (rows: usize)
    ensures
        rows == (if monitors < FLYOUT_MAX_MONITORS { monitors } else { FLYOUT_MAX_MONITORS }),
{
    if monitors < FLYOUT_MAX_MONITORS {
        monitors
    } else {
        FLYOUT_MAX_MONITORS
    }
}

/// Hiding retraces showing backwards: for the same window and margin, the
/// slide out starts where the slide in ends and ends where it starts, at the
/// same `x`.
pub proof fn law_slide_out_reverses_slide_in(window: Rect, margin: i32)
    ensures
        spec_slide_out(window, margin) == (
            spec_slide_in(window, margin).0,
            spec_slide_in(window, margin).2,
            spec_slide_in(window, margin).1,
        ),
{
}

/// The margin grows with the DPI: it is the DPI divided by 8 (12 pixels per
/// 96 DPI), rounded down, so doubling the DPI at least doubles the margin and
/// a higher DPI never gives a smaller one.
pub proof fn law_margin_scales_with_dpi(dpi: u32, higher: u32)
    requires
        dpi as int * 12 <= i32::MAX,
        higher as int * 12 <= i32::MAX,
    ensures
        spec_dpi_margin(dpi) == dpi as int / 8,
        spec_dpi_margin(dpi) * 8 <= dpi < (spec_dpi_margin(dpi) + 1) * 8,
        dpi <= higher ==> spec_dpi_margin(dpi) <= spec_dpi_margin(higher),
        higher as int == 2 * dpi as int ==> spec_dpi_margin(higher) >= 2 * spec_dpi_margin(dpi),
{
    assert((dpi as i32) as int == dpi as int);
    assert((higher as i32) as int == higher as int);
    assert((dpi as int * 12) / 96 == dpi as int / 8) by (nonlinear_arith)
        requires
            dpi >= 0,
    ;
    assert((higher as int * 12) / 96 == higher as int / 8) by (nonlinear_arith)
        requires
            higher >= 0,
    ;
}

/// The flyout's bottom-right corner lies `margin` pixels inside the work
/// area's bottom-right corner, and the window keeps its size.
pub proof fn law_flyout_sits_margin_inside_corner(work: Rect, window: Rect, margin: i32)
    ensures
        ({
            let (x, y) = spec_flyout_origin(work, window, margin);
            &&& x + (window.right - window.left) + margin == work.right
            &&& y + (window.bottom - window.top) + margin == work.bottom
        }),
{
}

/// Resizing gives the client area the asked size while keeping the frame: no
/// resize exactly when the outer size already fits; otherwise the new outer
/// size minus the frame is the asked client size.
pub proof fn law_resize_keeps_the_frame(client_w: i32, client_h: i32, outer: Rect, client: Rect)
    ensures
        ({
            let frame_w = (outer.right - outer.left) - (client.right - client.left);
            let frame_h = (outer.bottom - outer.top) - (client.bottom - client.top);
            &&& spec_resize_for_client(client_w, client_h, outer, client) is None <==> (
            outer.right - outer.left == client_w + frame_w && outer.bottom - outer.top == client_h
                + frame_h)
            &&& spec_resize_for_client(client_w, client_h, outer, client) matches Some((w, h)) ==> (
            w - frame_w == client_w && h - frame_h == client_h)
        }),
{
}

/// Showing slides the window up from `margin` pixels below where its bottom
/// edge will be, and ends with the window where it is; the slide is vertical.
pub proof fn law_slide_in_ends_in_place(window: Rect, margin: i32)
    ensures
        spec_slide_in(window, margin).0 == window.left,
        spec_slide_in(window, margin).1 == window.bottom + margin,
        spec_slide_in(window, margin).2 == window.top,
        spec_slide_out(window, margin).1 == window.top,
        spec_slide_out(window, margin).2 == window.bottom + margin,
{
}
} // verus!
