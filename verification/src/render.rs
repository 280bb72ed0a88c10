//! Scale resolution, panel and ghost rendering, hole layout and the final
//! document assembly.
//!
//! All geometry is fixed-point (`crate::fixed`); every markup fragment has
//! a spec-level counterpart, and `document` is the exact output a render
//! produces for a well-formed state.

use vstd::prelude::*;
use vstd::string::StringExecFns;
use crate::fixed::{
    abs_val, fx_div, fx_div_val, fx_half, fx_half_val, fx_max, fx_max_val, fx_min, fx_min_val,
    fx_mul, fx_mul_val, lemma_fx_div_bound, lemma_fx_mul_bound, MAX_NUM,
};
use crate::fmt::{dec_digits, fx_plain, fx_two, push_dec, push_fx_plain, push_fx_two};
use crate::state::{
    zoom_factor, zoom_factor_val, HoleModel, State, StateModel, state_wf, hole_wf,
};

verus! {

/// Canvas width, fixed-point pixels.
pub const VIEW_W: i64 = 4_800_000;

/// Canvas height, fixed-point pixels.
pub const VIEW_H: i64 = 3_600_000;

/// Drawing area width: the canvas minus a 12-pixel margin on each side.
pub const AVAIL_W: i64 = 4_560_000;

/// Drawing area height.
pub const AVAIL_H: i64 = 3_360_000;

/// Clearance kept between a hole and the panel edge: half an inch.
pub const EDGE_MARGIN: i64 = 5000;

/// Largest uniform factor that fits the panel into the drawing area.
pub open spec fn base_scale_val(st: StateModel) -> int {
    fx_min_val(fx_div_val(AVAIL_W as int, st.width), fx_div_val(AVAIL_H as int, st.height))
}

/// The view scale: the base scale times the zoom factor.
pub open spec fn scale_val(st: StateModel) -> int {
    fx_mul_val(base_scale_val(st), zoom_factor_val(st.zoom))
}

/// Displayed panel width.
pub open spec fn disp_w_val(st: StateModel) -> int {
    fx_mul_val(st.width, scale_val(st))
}

/// Displayed panel height.
pub open spec fn disp_h_val(st: StateModel) -> int {
    fx_mul_val(st.height, scale_val(st))
}

/// Canvas x of the panel's top-left corner: the panel is centered.
pub open spec fn origin_x_val(st: StateModel) -> int {
    fx_half_val(VIEW_W as int - disp_w_val(st))
}

/// Canvas y of the panel's top-left corner.
pub open spec fn origin_y_val(st: StateModel) -> int {
    fx_half_val(VIEW_H as int - disp_h_val(st))
}

/// Ghost offset along both axes: the capped depth projection times 0.6.
pub open spec fn shift_val(st: StateModel) -> int {
    fx_mul_val(fx_min_val(200000 + fx_mul_val(st.depth, 20000), 1400000), 6000)
}

/// The nominal diameter, with the default of 12 for an unset (non-positive)
/// nominal.
pub open spec fn nominal_eff(h: HoleModel) -> int {
    if h.nominal > 0 {
        h.nominal
    } else {
        120000
    }
}

/// Diameter before the panel clamp: `spec` over `cut` over the estimated
/// nominal (nominal times 0.93).
pub open spec fn raw_dia(h: HoleModel) -> int {
    match h.spec_dia {
        Some(s) => s,
        None => match h.cut {
            Some(c) => c,
            None => fx_mul_val(nominal_eff(h), 9300),
        },
    }
}

/// Resolved diameter of hole `i`: the raw diameter clamped to the panel
/// width and height.
pub open spec fn dia_of(st: StateModel, i: int) -> int {
    fx_min_val(fx_min_val(raw_dia(st.holes[i]), st.width), st.height)
}

/// Resolved radius of hole `i`.
pub open spec fn radius_of(st: StateModel, i: int) -> int {
    fx_half_val(dia_of(st, i))
}

/// One axis of the position clamp: the center is pushed in so that the
/// circle plus the edge margin stays within `[0, limit]`, lower bound
/// first.
pub open spec fn clamp_axis(c: int, r: int, limit: int) -> int {
    let c1 = if c - r - EDGE_MARGIN < 0 {
        r + EDGE_MARGIN as int
    } else {
        c
    };
    if c1 + r + EDGE_MARGIN > limit {
        limit - r - EDGE_MARGIN as int
    } else {
        c1
    }
}

/// Clamped panel-space x of hole `i`'s center.
pub open spec fn hx_of(st: StateModel, i: int) -> int {
    clamp_axis(fx_half_val(st.width) + st.holes[i].dx, radius_of(st, i), st.width)
}

/// Clamped panel-space y of hole `i`'s center.
pub open spec fn hy_of(st: StateModel, i: int) -> int {
    clamp_axis(fx_half_val(st.height) + st.holes[i].dy, radius_of(st, i), st.height)
}

/// Canvas x of hole `i`'s center.
pub open spec fn disp_x_of(st: StateModel, i: int) -> int {
    origin_x_val(st) + fx_mul_val(hx_of(st, i) - fx_half_val(st.width), scale_val(st))
        + fx_half_val(disp_w_val(st))
}

/// Canvas y of hole `i`'s center.
pub open spec fn disp_y_of(st: StateModel, i: int) -> int {
    origin_y_val(st) + fx_mul_val(hy_of(st, i) - fx_half_val(st.height), scale_val(st))
        + fx_half_val(disp_h_val(st))
}

/// Canvas radius of hole `i`.
pub open spec fn disp_r_of(st: StateModel, i: int) -> int {
    fx_mul_val(radius_of(st, i), scale_val(st))
}

/// Canvas y of hole `i`'s badge: ten pixels above the circle.
pub open spec fn badge_y_of(st: StateModel, i: int) -> int {
    disp_y_of(st, i) - disp_r_of(st, i) - 100000
}

/// Font size of hole `i`'s diameter label: 0.55 of the canvas radius, kept
/// between 6 and 15 pixels.
pub open spec fn font_of(st: StateModel, i: int) -> int {
    fx_max_val(fx_min_val(fx_mul_val(disp_r_of(st, i), 5500), 150000), 60000)
}

/// Badge text: which diameter source was used.
pub open spec fn badge_of(h: HoleModel) -> Seq<char> {
    if h.spec_dia is Some {
        "SPEC"@
    } else if h.cut is Some {
        "CUT"@
    } else {
        "EST"@
    }
}

/// A rectangle element.
pub open spec fn rect_markup(x: int, y: int, w: int, h: int, cls: Seq<char>) -> Seq<char> {
    "<rect x='"@ + fx_plain(x) + "' y='"@ + fx_plain(y) + "' width='"@ + fx_plain(w)
        + "' height='"@ + fx_plain(h) + "' class='"@ + cls + "' />"@
}

/// One edge connecting the front panel to the ghost panel.
pub open spec fn edge_markup(x1: int, y1: int, x2: int, y2: int) -> Seq<char> {
    "<line x1='"@ + fx_plain(x1) + "' y1='"@ + fx_plain(y1) + "' x2='"@ + fx_plain(x2) + "' y2='"@
        + fx_plain(y2) + "' class='ghost-edge' />"@
}

/// The ghost fragment: the offset back panel and its four connecting
/// edges, or nothing when the layer is off.
pub open spec fn ghost_markup(st: StateModel) -> Seq<char> {
    if st.show_ghost {
        let x = origin_x_val(st);
        let y = origin_y_val(st);
        let dw = disp_w_val(st);
        let dh = disp_h_val(st);
        let gbx = x + shift_val(st);
        let gby = y + shift_val(st);
        rect_markup(gbx, gby, dw, dh, "ghost-back"@) + edge_markup(x, y, gbx, gby) + edge_markup(
            x + dw,
            y,
            gbx + dw,
            gby,
        ) + edge_markup(x, y + dh, gbx, gby + dh) + edge_markup(x + dw, y + dh, gbx + dw, gby + dh)
    } else {
        Seq::empty()
    }
}

/// The front panel rectangle.
pub open spec fn front_markup(st: StateModel) -> Seq<char> {
    rect_markup(origin_x_val(st), origin_y_val(st), disp_w_val(st), disp_h_val(st), "front"@)
}

/// One hole's fragment over its resolved values: the circle marker, the
/// badge and the diameter label.
pub open spec fn hole_markup_vals(
    dxv: int,
    dyv: int,
    drv: int,
    byv: int,
    fontv: int,
    diav: int,
    sel: bool,
    badge: Seq<char>,
    idx: int,
) -> Seq<char> {
    circle_markup(dxv, dyv, drv, sel, idx) + badge_markup(dxv, byv, badge) + label_markup(
        dxv,
        dyv,
        fontv,
        diav,
    )
}

/// The circle marker of one hole.
pub open spec fn circle_markup(dxv: int, dyv: int, drv: int, sel: bool, idx: int) -> Seq<char> {
    "<g class='hole'><circle cx='"@ + fx_plain(dxv) + "' cy='"@ + fx_plain(dyv) + "' r='"@
        + fx_plain(drv) + "' class='cutout"@ + (if sel {
        " selected"@
    } else {
        Seq::empty()
    }) + "' data-idx='"@ + dec_digits(idx) + "' />"@
}

/// The badge label of one hole.
pub open spec fn badge_markup(dxv: int, byv: int, badge: Seq<char>) -> Seq<char> {
    "<text x='"@ + fx_plain(dxv) + "' y='"@ + fx_plain(byv)
        + "' text-anchor='middle' class='badge'>"@ + badge + "</text>"@
}

/// The diameter label of one hole.
pub open spec fn label_markup(dxv: int, dyv: int, fontv: int, diav: int) -> Seq<char> {
    "<text x='"@ + fx_plain(dxv) + "' y='"@ + fx_plain(dyv)
        + "' text-anchor='middle' dominant-baseline='middle' style='font:"@ + fx_plain(fontv)
        + "px system-ui;fill:#ffd28c;'>"@ + fx_two(diav) + "\"</text>"@
}

/// The fragment of hole `i`.
pub open spec fn hole_markup(st: StateModel, i: int) -> Seq<char> {
    hole_markup_vals(
        disp_x_of(st, i),
        disp_y_of(st, i),
        disp_r_of(st, i),
        badge_y_of(st, i),
        font_of(st, i),
        dia_of(st, i),
        st.holes[i].selected,
        badge_of(st.holes[i]),
        i,
    )
}

/// The fragments of the first `k` holes, in input order.
pub open spec fn holes_prefix(st: StateModel, k: int) -> Seq<char>
    decreases k,
{
    if k <= 0 {
        Seq::empty()
    } else {
        holes_prefix(st, k - 1) + hole_markup(st, k - 1)
    }
}

/// The cutouts group holding every hole fragment.
pub open spec fn cutouts_markup(st: StateModel) -> Seq<char> {
    "<g class='cutouts'>"@ + holes_prefix(st, st.holes.len() as int) + "</g>"@
}

/// One dimension line.
pub open spec fn dim_line_markup(x1: int, y1: int, x2: int, y2: int) -> Seq<char> {
    "<line x1='"@ + fx_plain(x1) + "' y1='"@ + fx_plain(y1) + "' x2='"@ + fx_plain(x2) + "' y2='"@
        + fx_plain(y2) + "' stroke='#555' stroke-width='1' />"@
}

/// The dimension fragment: a width line and label above the panel and a
/// height line and label to its right, or nothing when the layer is off.
pub open spec fn dims_markup(st: StateModel) -> Seq<char> {
    if st.show_dims {
        let x = origin_x_val(st);
        let y = origin_y_val(st);
        let dw = disp_w_val(st);
        let dh = disp_h_val(st);
        let wy = y - 200000;
        let hxr = x + dw + 300000;
        dim_line_markup(x, wy, x + dw, wy) + ("<text x='"@ + fx_plain(x + fx_half_val(dw))
            + "' y='"@ + fx_plain(wy - 60000)
            + "' text-anchor='middle' fill='#222' style='font:13px system-ui;'>W "@ + fx_two(
            st.width,
        ) + " in</text>"@) + dim_line_markup(hxr, y, hxr, y + dh) + ("<text x='"@ + fx_plain(
            hxr + 40000,
        ) + "' y='"@ + fx_plain(y + fx_half_val(dh))
            + "' text-anchor='start' dominant-baseline='middle' fill='#222' style='font:13px system-ui;'>H "@
            + fx_two(st.height) + " in</text>"@)
    } else {
        Seq::empty()
    }
}

/// The fixed document frame up to the first fragment slot.
pub open spec fn doc_head() -> Seq<char> {
    "<svg viewBox='0 0 480 360' preserveAspectRatio='xMidYMid meet'>\n      <defs>\n        <style>\n          .front { fill:#1e2630; stroke:#55687a; stroke-width:1.5; }\n          .ghost-back { fill:none; stroke:#3a4855; stroke-width:1.2; stroke-dasharray:4 3; opacity:.25; }\n          .ghost-edge { stroke:#3a4855; stroke-width:1; stroke-dasharray:4 3; opacity:.35; }\n          .cutout { fill:#111; stroke:#ff9d4f; stroke-width:1.2; }\n          .cutout.selected { stroke:#ffd28c; stroke-width:1.6; }\n          .badge { font:10px system-ui; fill:#fff; stroke:#222; stroke-width:.4; paint-order:stroke; }\n        </style>\n      </defs>\n      <rect x='0' y='0' width='480' height='360' fill='#f3e2c9' />\n      "@
}

/// The whole document of a well-formed state: frame, ghost, front panel,
/// cutouts and dimensions, in fixed order.
pub open spec fn document(st: StateModel) -> Seq<char> {
    doc_head() + ghost_markup(st) + "\n      "@ + front_markup(st) + "\n      "@ + cutouts_markup(
        st,
    ) + "\n      "@ + dims_markup(st) + "\n    </svg>"@
}

/// The fail-soft document that carries a decode diagnostic.
pub open spec fn error_doc(msg: Seq<char>) -> Seq<char> {
    "<svg><text x='4' y='14' fill='red'>state parse error: "@ + msg + "</text></svg>"@
}

/// Appending one more piece to an already-prefixed text regroups to the
/// prefix plus the longer tail.
proof fn lemma_cat(base: Seq<char>, a: Seq<char>, b: Seq<char>)
    ensures
        (base + a) + b == base + (a + b),
{
    assert((base + a) + b =~= base + (a + b));
}

/// `fx_mul_val` of nonnegative values is nonnegative.
proof fn lemma_fx_mul_nonneg(a: int, b: int)
    requires
        0 <= a,
        0 <= b,
    ensures
        0 <= fx_mul_val(a, b),
{
    assert(a * b >= 0) by (nonlinear_arith)
        requires
            0 <= a,
            0 <= b,
    ;
    vstd::arithmetic::div_mod::lemma_div_pos_is_pos(a * b, 10000);
}

/// `fx_div_val` of a nonnegative dividend is nonnegative.
proof fn lemma_fx_div_nonneg(a: int, b: int)
    requires
        0 <= a,
        1 <= b,
    ensures
        0 <= fx_div_val(a, b),
{
    vstd::arithmetic::div_mod::lemma_div_pos_is_pos(a * 10000, b);
}

/// Resolves the view scale of a well-formed state.
pub fn resolve_scale(st: &State) -> (r: i64)
    requires
        state_wf(st@),
    ensures
        r as int == scale_val(st@),
        0 <= r <= 27_360_000_000,
{
    proof {
        lemma_fx_div_bound(AVAIL_W as int, st@.width, AVAIL_W as int);
        lemma_fx_div_bound(AVAIL_H as int, st@.height, AVAIL_H as int);
        lemma_fx_div_nonneg(AVAIL_W as int, st@.width);
        lemma_fx_div_nonneg(AVAIL_H as int, st@.height);
    }
    let b1 = fx_div(AVAIL_W, st.width);
    let b2 = fx_div(AVAIL_H, st.height);
    let base = fx_min(b1, b2);
    let f = zoom_factor(st.zoom);
    proof {
        lemma_fx_mul_bound(base as int, f as int, 45_600_000_000, 6000);
        lemma_fx_mul_nonneg(base as int, f as int);
    }
    fx_mul(base, f)
}

/// Resolves the shared coordinate frame: scale, panel origin and displayed
/// size.
pub fn resolve_frame(st: &State) -> (r: (i64, i64, i64, i64, i64))
    requires
        state_wf(st@),
    ensures
        r.0 as int == scale_val(st@),
        r.1 as int == origin_x_val(st@),
        r.2 as int == origin_y_val(st@),
        r.3 as int == disp_w_val(st@),
        r.4 as int == disp_h_val(st@),
        0 <= r.0 <= 27_360_000_000,
        abs_val(r.1 as int) <= 300_000_000_000_000_000,
        abs_val(r.2 as int) <= 300_000_000_000_000_000,
        0 <= r.3 <= 280_000_000_000_000_000,
        0 <= r.4 <= 280_000_000_000_000_000,
{
    let sc = resolve_scale(st);
    proof {
        lemma_fx_mul_bound(st@.width, sc as int, MAX_NUM as int, 27_360_000_000);
        lemma_fx_mul_bound(st@.height, sc as int, MAX_NUM as int, 27_360_000_000);
        lemma_fx_mul_nonneg(st@.width, sc as int);
        lemma_fx_mul_nonneg(st@.height, sc as int);
    }
    let dw = fx_mul(st.width, sc);
    let dh = fx_mul(st.height, sc);
    let x = fx_half(VIEW_W - dw);
    let y = fx_half(VIEW_H - dh);
    (sc, x, y, dw, dh)
}

/// Appends one rectangle element.
fn push_rect(out: &mut String, x: i64, y: i64, w: i64, h: i64, cls: &str)
    requires
        x > i64::MIN,
        y > i64::MIN,
        w > i64::MIN,
        h > i64::MIN,
    ensures
        final(out)@ == old(out)@ + rect_markup(x as int, y as int, w as int, h as int, cls@),
{
    out.append("<rect x='");
    push_fx_plain(out, x);
    out.append("' y='");
    push_fx_plain(out, y);
    out.append("' width='");
    push_fx_plain(out, w);
    out.append("' height='");
    push_fx_plain(out, h);
    out.append("' class='");
    out.append(cls);
    out.append("' />");
    proof {
        assert(out@ =~= old(out)@ + rect_markup(x as int, y as int, w as int, h as int, cls@));
    }
}

/// Appends one ghost edge.
fn push_edge(out: &mut String, x1: i64, y1: i64, x2: i64, y2: i64)
    requires
        x1 > i64::MIN,
        y1 > i64::MIN,
        x2 > i64::MIN,
        y2 > i64::MIN,
    ensures
        final(out)@ == old(out)@ + edge_markup(x1 as int, y1 as int, x2 as int, y2 as int),
{
    out.append("<line x1='");
    push_fx_plain(out, x1);
    out.append("' y1='");
    push_fx_plain(out, y1);
    out.append("' x2='");
    push_fx_plain(out, x2);
    out.append("' y2='");
    push_fx_plain(out, y2);
    out.append("' class='ghost-edge' />");
    proof {
        assert(out@ =~= old(out)@ + edge_markup(x1 as int, y1 as int, x2 as int, y2 as int));
    }
}

/// Appends one dimension line.
fn push_dim_line(out: &mut String, x1: i64, y1: i64, x2: i64, y2: i64)
    requires
        x1 > i64::MIN,
        y1 > i64::MIN,
        x2 > i64::MIN,
        y2 > i64::MIN,
    ensures
        final(out)@ == old(out)@ + dim_line_markup(x1 as int, y1 as int, x2 as int, y2 as int),
{
    out.append("<line x1='");
    push_fx_plain(out, x1);
    out.append("' y1='");
    push_fx_plain(out, y1);
    out.append("' x2='");
    push_fx_plain(out, x2);
    out.append("' y2='");
    push_fx_plain(out, y2);
    out.append("' stroke='#555' stroke-width='1' />");
    proof {
        assert(out@ =~= old(out)@ + dim_line_markup(x1 as int, y1 as int, x2 as int, y2 as int));
    }
}

/// Appends one hole fragment from its resolved values.
#[verifier::rlimit(100)]
fn push_hole_markup(
    out: &mut String,
    dxv: i64,
    dyv: i64,
    drv: i64,
    byv: i64,
    fontv: i64,
    diav: i64,
    sel: bool,
    badge: &str,
    idx: u64,
)
    requires
        dxv > i64::MIN,
        dyv > i64::MIN,
        drv > i64::MIN,
        byv > i64::MIN,
        fontv > i64::MIN,
        diav > i64::MIN,
    ensures
        final(out)@ == old(out)@ + hole_markup_vals(
            dxv as int,
            dyv as int,
            drv as int,
            byv as int,
            fontv as int,
            diav as int,
            sel,
            badge@,
            idx as int,
        ),
{
    out.append("<g class='hole'><circle cx='");
    push_fx_plain(out, dxv);
    out.append("' cy='");
    push_fx_plain(out, dyv);
    out.append("' r='");
    push_fx_plain(out, drv);
    out.append("' class='cutout");
    if sel {
        out.append(" selected");
    }
    out.append("' data-idx='");
    push_dec(out, idx);
    out.append("' />");
    proof {
        assert(out@ =~= old(out)@ + circle_markup(
            dxv as int,
            dyv as int,
            drv as int,
            sel,
            idx as int,
        ));
    }
    let ghost s1 = out@;
    out.append("<text x='");
    push_fx_plain(out, dxv);
    out.append("' y='");
    push_fx_plain(out, byv);
    out.append("' text-anchor='middle' class='badge'>");
    out.append(badge);
    out.append("</text>");
    proof {
        assert(out@ =~= s1 + badge_markup(dxv as int, byv as int, badge@));
    }
    let ghost s2 = out@;
    out.append("<text x='");
    push_fx_plain(out, dxv);
    out.append("' y='");
    push_fx_plain(out, dyv);
    out.append("' text-anchor='middle' dominant-baseline='middle' style='font:");
    push_fx_plain(out, fontv);
    out.append("px system-ui;fill:#ffd28c;'>");
    push_fx_two(out, diav);
    out.append("\"</text>");
    proof {
        assert(out@ =~= s2 + label_markup(dxv as int, dyv as int, fontv as int, diav as int));
        assert(out@ =~= old(out)@ + hole_markup_vals(
            dxv as int,
            dyv as int,
            drv as int,
            byv as int,
            fontv as int,
            diav as int,
            sel,
            badge@,
            idx as int,
        ));
    }
}

/// Appends the ghost fragment.
fn push_ghost(out: &mut String, st: &State, x: i64, y: i64, dw: i64, dh: i64)
    requires
        state_wf(st@),
        x as int == origin_x_val(st@),
        y as int == origin_y_val(st@),
        dw as int == disp_w_val(st@),
        dh as int == disp_h_val(st@),
        abs_val(x as int) <= 300_000_000_000_000_000,
        abs_val(y as int) <= 300_000_000_000_000_000,
        0 <= dw <= 280_000_000_000_000_000,
        0 <= dh <= 280_000_000_000_000_000,
    ensures
        final(out)@ == old(out)@ + ghost_markup(st@),
{
    if st.show_ghost {
        proof {
            lemma_fx_mul_bound(st@.depth, 20000, MAX_NUM as int, 20000);
        }
        let dp = fx_mul(st.depth, 20000);
        let depth_proj = fx_min(200000 + dp, 1400000);
        proof {
            lemma_fx_mul_bound(depth_proj as int, 6000, 300_000_000_000, 6000);
        }
        let shift = fx_mul(depth_proj, 6000);
        let gbx = x + shift;
        let gby = y + shift;
        push_rect(out, gbx, gby, dw, dh, "ghost-back");
        push_edge(out, x, y, gbx, gby);
        push_edge(out, x + dw, y, gbx + dw, gby);
        push_edge(out, x, y + dh, gbx, gby + dh);
        push_edge(out, x + dw, y + dh, gbx + dw, gby + dh);
        proof {
            let gr = rect_markup(gbx as int, gby as int, dw as int, dh as int, "ghost-back"@);
            let e1 = edge_markup(x as int, y as int, gbx as int, gby as int);
            let e2 = edge_markup(
                x as int + dw as int,
                y as int,
                gbx as int + dw as int,
                gby as int,
            );
            let e3 = edge_markup(
                x as int,
                y as int + dh as int,
                gbx as int,
                gby as int + dh as int,
            );
            let e4 = edge_markup(
                x as int + dw as int,
                y as int + dh as int,
                gbx as int + dw as int,
                gby as int + dh as int,
            );
            lemma_cat(old(out)@, gr, e1);
            lemma_cat(old(out)@, gr + e1, e2);
            lemma_cat(old(out)@, gr + e1 + e2, e3);
            lemma_cat(old(out)@, gr + e1 + e2 + e3, e4);
            assert(out@ == old(out)@ + ghost_markup(st@));
        }
    }
}

/// Appends the cutouts group: every hole in input order.
#[verifier::rlimit(100)]
fn push_cutouts(out: &mut String, st: &State, sc: i64, x: i64, y: i64, dw: i64, dh: i64)
    requires
        state_wf(st@),
        sc as int == scale_val(st@),
        x as int == origin_x_val(st@),
        y as int == origin_y_val(st@),
        dw as int == disp_w_val(st@),
        dh as int == disp_h_val(st@),
        0 <= sc <= 27_360_000_000,
        abs_val(x as int) <= 300_000_000_000_000_000,
        abs_val(y as int) <= 300_000_000_000_000_000,
        0 <= dw <= 280_000_000_000_000_000,
        0 <= dh <= 280_000_000_000_000_000,
    ensures
        final(out)@ == old(out)@ + cutouts_markup(st@),
{
    out.append("<g class='cutouts'>");
    let ghost base = old(out)@ + "<g class='cutouts'>"@;
    proof {
        assert(out@ == base + holes_prefix(st@, 0));
    }
    let mut i: usize = 0;
    while i < st.holes.len()
        invariant
            state_wf(st@),
            sc as int == scale_val(st@),
            x as int == origin_x_val(st@),
            y as int == origin_y_val(st@),
            dw as int == disp_w_val(st@),
            dh as int == disp_h_val(st@),
            0 <= sc <= 27_360_000_000,
            abs_val(x as int) <= 300_000_000_000_000_000,
            abs_val(y as int) <= 300_000_000_000_000_000,
            0 <= dw <= 280_000_000_000_000_000,
            0 <= dh <= 280_000_000_000_000_000,
            i <= st.holes@.len(),
            out@ == base + holes_prefix(st@, i as int),
        decreases st.holes@.len() - i,
    {
        let h = st.holes[i];
        proof {
            assert(st@.holes[i as int] == h@);
            assert(hole_wf(st@.holes[i as int]));
        }
        let nom_eff: i64 = if h.nominal > 0 {
            h.nominal
        } else {
            120000
        };
        proof {
            lemma_fx_mul_bound(nom_eff as int, 9300, MAX_NUM as int, 9300);
        }
        let rawd: i64 = match h.spec_dia {
            Some(s) => s,
            None => match h.cut {
                Some(c) => c,
                None => fx_mul(nom_eff, 9300),
            },
        };
        let dia = fx_min(fx_min(rawd, st.width), st.height);
        let r = fx_half(dia);
        let hw = fx_half(st.width);
        let hh = fx_half(st.height);
        let hx0 = hw + h.dx;
        let hx1 = if hx0 - r - EDGE_MARGIN < 0 {
            r + EDGE_MARGIN
        } else {
            hx0
        };
        let hx = if hx1 + r + EDGE_MARGIN > st.width {
            st.width - r - EDGE_MARGIN
        } else {
            hx1
        };
        let hy0 = hh + h.dy;
        let hy1 = if hy0 - r - EDGE_MARGIN < 0 {
            r + EDGE_MARGIN
        } else {
            hy0
        };
        let hy = if hy1 + r + EDGE_MARGIN > st.height {
            st.height - r - EDGE_MARGIN
        } else {
            hy1
        };
        proof {
            lemma_fx_mul_bound(hx as int - hw as int, sc as int, 400_000_000_000, 27_360_000_000);
            lemma_fx_mul_bound(hy as int - hh as int, sc as int, 400_000_000_000, 27_360_000_000);
        }
        let tx = fx_mul(hx - hw, sc);
        let ty = fx_mul(hy - hh, sc);
        let dxv = x + tx + fx_half(dw);
        let dyv = y + ty + fx_half(dh);
        proof {
            lemma_fx_mul_bound(r as int, sc as int, 51_000_000_000, 27_360_000_000);
        }
        let drv = fx_mul(r, sc);
        let byv = dyv - drv - 100000;
        proof {
            lemma_fx_mul_bound(drv as int, 5500, 200_000_000_000_000_000, 5500);
        }
        let font0 = fx_mul(drv, 5500);
        let fontv = fx_max(fx_min(font0, 150000), 60000);
        let badge: &str = if h.spec_dia.is_some() {
            "SPEC"
        } else if h.cut.is_some() {
            "CUT"
        } else {
            "EST"
        };
        proof {
            assert(badge@ == badge_of(st@.holes[i as int]));
            assert(dia as int == dia_of(st@, i as int));
            assert(r as int == radius_of(st@, i as int));
            assert(hx as int == hx_of(st@, i as int));
            assert(hy as int == hy_of(st@, i as int));
            assert(dxv as int == disp_x_of(st@, i as int));
            assert(dyv as int == disp_y_of(st@, i as int));
            assert(drv as int == disp_r_of(st@, i as int));
            assert(byv as int == badge_y_of(st@, i as int));
            assert(fontv as int == font_of(st@, i as int));
        }
        push_hole_markup(out, dxv, dyv, drv, byv, fontv, dia, h.selected, badge, i as u64);
        proof {
            assert(out@ =~= base + holes_prefix(st@, i as int + 1));
        }
        i = i + 1;
    }
    out.append("</g>");
    proof {
        assert(out@ =~= old(out)@ + cutouts_markup(st@));
    }
}

/// Appends the dimension fragment.
fn push_dims(out: &mut String, st: &State, x: i64, y: i64, dw: i64, dh: i64)
    requires
        state_wf(st@),
        x as int == origin_x_val(st@),
        y as int == origin_y_val(st@),
        dw as int == disp_w_val(st@),
        dh as int == disp_h_val(st@),
        abs_val(x as int) <= 300_000_000_000_000_000,
        abs_val(y as int) <= 300_000_000_000_000_000,
        0 <= dw <= 280_000_000_000_000_000,
        0 <= dh <= 280_000_000_000_000_000,
    ensures
        final(out)@ == old(out)@ + dims_markup(st@),
{
    if st.show_dims {
        let wy = y - 200000;
        push_dim_line(out, x, wy, x + dw, wy);
        let ghost s1 = out@;
        out.append("<text x='");
        push_fx_plain(out, x + fx_half(dw));
        out.append("' y='");
        push_fx_plain(out, wy - 60000);
        out.append("' text-anchor='middle' fill='#222' style='font:13px system-ui;'>W ");
        push_fx_two(out, st.width);
        out.append(" in</text>");
        let ghost t1 = ("<text x='"@ + fx_plain(x as int + fx_half_val(dw as int)) + "' y='"@
            + fx_plain(wy as int - 60000)
            + "' text-anchor='middle' fill='#222' style='font:13px system-ui;'>W "@ + fx_two(
            st@.width,
        ) + " in</text>"@);
        proof {
            assert(out@ =~= s1 + t1);
        }
        let hxr = x + dw + 300000;
        push_dim_line(out, hxr, y, hxr, y + dh);
        let ghost s2 = out@;
        out.append("<text x='");
        push_fx_plain(out, hxr + 40000);
        out.append("' y='");
        push_fx_plain(out, y + fx_half(dh));
        out.append(
            "' text-anchor='start' dominant-baseline='middle' fill='#222' style='font:13px system-ui;'>H ",
        );
        push_fx_two(out, st.height);
        out.append(" in</text>");
        let ghost t2 = ("<text x='"@ + fx_plain(hxr as int + 40000) + "' y='"@ + fx_plain(
            y as int + fx_half_val(dh as int),
        )
            + "' text-anchor='start' dominant-baseline='middle' fill='#222' style='font:13px system-ui;'>H "@
            + fx_two(st@.height) + " in</text>"@);
        proof {
            assert(out@ =~= s2 + t2);
            let l1 = dim_line_markup(x as int, wy as int, x as int + dw as int, wy as int);
            let l2 = dim_line_markup(hxr as int, y as int, hxr as int, y as int + dh as int);
            lemma_cat(old(out)@, l1, t1);
            lemma_cat(old(out)@, l1 + t1, l2);
            lemma_cat(old(out)@, l1 + t1 + l2, t2);
            assert(out@ == old(out)@ + dims_markup(st@));
        }
    }
}

/// Renders the whole document of a well-formed state.
pub fn render_document(st: &State) -> (r: String)
    requires
        state_wf(st@),
    ensures
        r@ == document(st@),
{
    let (sc, x, y, dw, dh) = resolve_frame(st);
    let mut out = String::new();
    out.append(
        "<svg viewBox='0 0 480 360' preserveAspectRatio='xMidYMid meet'>\n      <defs>\n        <style>\n          .front { fill:#1e2630; stroke:#55687a; stroke-width:1.5; }\n          .ghost-back { fill:none; stroke:#3a4855; stroke-width:1.2; stroke-dasharray:4 3; opacity:.25; }\n          .ghost-edge { stroke:#3a4855; stroke-width:1; stroke-dasharray:4 3; opacity:.35; }\n          .cutout { fill:#111; stroke:#ff9d4f; stroke-width:1.2; }\n          .cutout.selected { stroke:#ffd28c; stroke-width:1.6; }\n          .badge { font:10px system-ui; fill:#fff; stroke:#222; stroke-width:.4; paint-order:stroke; }\n        </style>\n      </defs>\n      <rect x='0' y='0' width='480' height='360' fill='#f3e2c9' />\n      ",
    );
    push_ghost(&mut out, st, x, y, dw, dh);
    out.append("\n      ");
    push_rect(&mut out, x, y, dw, dh, "front");
    out.append("\n      ");
    push_cutouts(&mut out, st, sc, x, y, dw, dh);
    out.append("\n      ");
    push_dims(&mut out, st, x, y, dw, dh);
    out.append("\n    </svg>");
    proof {
        assert(out@ =~= document(st@));
    }
    out
}

} // verus!
