//! The library's stated laws: document framing, the scale formula, diameter
//! priority, clamp containment, badge provenance and the error channel.

use vstd::prelude::*;
use crate::decode::zoom_of;
use crate::fixed::{fx_div_val, fx_min_val, fx_mul_val};
use crate::render::{
    badge_of, dia_of, document, error_doc, hx_of, hy_of, nominal_eff, radius_of, scale_val,
};
use crate::state::{HoleModel, StateModel, ZoomMode, zoom_factor_val};

verus! {

/// The document of any state begins with the canvas-opening tag and ends
/// with its matching closing tag.
pub proof fn lemma_document_brackets(st: StateModel)
    ensures
        document(st).len() >= 10,
        document(st).subrange(0, 4) == "<svg"@,
        document(st).subrange(document(st).len() - 6, document(st).len() as int) == "</svg>"@,
{
    reveal_strlit(
        "<svg viewBox='0 0 480 360' preserveAspectRatio='xMidYMid meet'>\n      <defs>\n        <style>\n          .front { fill:#1e2630; stroke:#55687a; stroke-width:1.5; }\n          .ghost-back { fill:none; stroke:#3a4855; stroke-width:1.2; stroke-dasharray:4 3; opacity:.25; }\n          .ghost-edge { stroke:#3a4855; stroke-width:1; stroke-dasharray:4 3; opacity:.35; }\n          .cutout { fill:#111; stroke:#ff9d4f; stroke-width:1.2; }\n          .cutout.selected { stroke:#ffd28c; stroke-width:1.6; }\n          .badge { font:10px system-ui; fill:#fff; stroke:#222; stroke-width:.4; paint-order:stroke; }\n        </style>\n      </defs>\n      <rect x='0' y='0' width='480' height='360' fill='#f3e2c9' />\n      ",
    );
    reveal_strlit("\n    </svg>");
    reveal_strlit("<svg");
    reveal_strlit("</svg>");
    assert(document(st).subrange(0, 4) =~= "<svg"@);
    assert(document(st).subrange(document(st).len() - 6, document(st).len() as int) =~= "</svg>"@);
}

/// The error document begins and ends with the same canvas tags.
pub proof fn lemma_error_doc_brackets(msg: Seq<char>)
    ensures
        error_doc(msg).len() >= 10,
        error_doc(msg).subrange(0, 4) == "<svg"@,
        error_doc(msg).subrange(error_doc(msg).len() - 6, error_doc(msg).len() as int) == "</svg>"@,
{
    reveal_strlit("<svg><text x='4' y='14' fill='red'>state parse error: ");
    reveal_strlit("</text></svg>");
    reveal_strlit("<svg");
    reveal_strlit("</svg>");
    assert(error_doc(msg).subrange(0, 4) =~= "<svg"@);
    assert(error_doc(msg).subrange(error_doc(msg).len() - 6, error_doc(msg).len() as int)
        =~= "</svg>"@);
}

/// Whatever the diagnostic, the error document carries the literal parse
/// failure marker.
pub proof fn lemma_error_doc_marker(msg: Seq<char>)
    ensures
        error_doc(msg).subrange(35, 53) == "state parse error:"@,
{
    reveal_strlit("<svg><text x='4' y='14' fill='red'>state parse error: ");
    reveal_strlit("state parse error:");
    assert(error_doc(msg).subrange(35, 53) =~= "state parse error:"@);
}

/// The view scale is the largest factor fitting the panel into the
/// 456-by-336 drawing area, times the zoom factor of the mode.
pub proof fn lemma_scale_formula(st: StateModel)
    ensures
        scale_val(st) == fx_mul_val(
            fx_min_val(fx_div_val(4_560_000, st.width), fx_div_val(3_360_000, st.height)),
            zoom_factor_val(st.zoom),
        ),
{
}

/// Every raw zoom name but the three recognized ones falls back to the
/// default preset, whose factor is 0.45.
pub proof fn lemma_zoom_fallback(raw: Seq<char>)
    ensures
        raw != "close"@ && raw != "normal"@ && raw != "wide"@ ==> zoom_of(raw)
            == ZoomMode::Default,
        zoom_factor_val(ZoomMode::Default) == 4500,
{
}

/// Diameter selection is strictly prioritized `spec` over `cut` over the
/// estimated nominal (nominal times 0.93, with 12 in place of an unset
/// nominal), and the result never exceeds the panel width or height.
pub proof fn lemma_diameter_priority(st: StateModel, i: int)
    requires
        0 <= i < st.holes.len(),
    ensures
        st.holes[i].spec_dia matches Some(s) ==> dia_of(st, i) == fx_min_val(
            fx_min_val(s, st.width),
            st.height,
        ),
        st.holes[i].spec_dia is None ==> (st.holes[i].cut matches Some(c) ==> dia_of(st, i)
            == fx_min_val(fx_min_val(c, st.width), st.height)),
        st.holes[i].spec_dia is None && st.holes[i].cut is None ==> dia_of(st, i) == fx_min_val(
            fx_min_val(fx_mul_val(nominal_eff(st.holes[i]), 9300), st.width),
            st.height,
        ),
        st.holes[i].spec_dia is None && st.holes[i].cut is None && st.holes[i].nominal <= 0
            ==> dia_of(st, i) == fx_min_val(fx_min_val(111600, st.width), st.height),
        dia_of(st, i) <= st.width,
        dia_of(st, i) <= st.height,
{
}

/// On a panel large enough for the circle and its clearance, the clamped
/// center keeps the whole circle, margin included, inside the panel on both
/// axes.  (On a panel within one inch of the resolved diameter no center
/// can satisfy both sides, and the clamp favors the far edge.)
pub proof fn lemma_clamp_contains(st: StateModel, i: int)
    requires
        0 <= i < st.holes.len(),
        2 * (radius_of(st, i) + 5000) <= st.width,
        2 * (radius_of(st, i) + 5000) <= st.height,
    ensures
        radius_of(st, i) + 5000 <= hx_of(st, i),
        hx_of(st, i) + radius_of(st, i) + 5000 <= st.width,
        radius_of(st, i) + 5000 <= hy_of(st, i),
        hy_of(st, i) + radius_of(st, i) + 5000 <= st.height,
{
}

/// Badge text is exactly `SPEC`, `CUT` or `EST`, matching which diameter
/// source was present.
pub proof fn lemma_badge_source(h: HoleModel)
    ensures
        h.spec_dia is Some ==> badge_of(h) == "SPEC"@,
        h.spec_dia is None && h.cut is Some ==> badge_of(h) == "CUT"@,
        h.spec_dia is None && h.cut is None ==> badge_of(h) == "EST"@,
{
}

} // verus!
