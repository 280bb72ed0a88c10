//! Schematic 2D preview of a rectangular panel with drilled holes.
//!
//! The library is a pure projection from a textual state snapshot (a JSON
//! object) to a vector-graphics document: it decodes the state, resolves a
//! uniform view scale, lays out the panel, its optional depth ghost, the
//! hole markers and the optional dimension annotations, and assembles one
//! fixed-size document string.  Decoding failures are fail-soft: the
//! diagnostic is embedded in a minimal document on the same channel.

use vstd::prelude::*;
use vstd::string::StringExecFns;

pub mod decode;
pub mod fixed;
pub mod fmt;
pub mod laws;
pub mod render;
pub mod state;

use crate::decode::spec_decode;
use crate::decode::decode_state;
use crate::render::{document, error_doc, render_document};
use crate::state::error_text;

verus! {

/// Renders the preview of the state described by `state_json`: the exact
/// `document` of the decoded state, or the exact `error_doc` carrying the
/// decoder's diagnostic.
pub fn generate_preview(state_json: &str) -> (r: String)
    ensures
        match spec_decode(state_json@) {
            Ok(st) => r@ == document(st),
            Err(e) => r@ == error_doc(error_text(e)),
        },
{
    match decode_state(state_json) {
        Ok(st) => render_document(&st),
        Err(e) => {
            let mut out = String::new();
            out.append("<svg><text x='4' y='14' fill='red'>state parse error: ");
            out.append(e.message());
            out.append("</text></svg>");
            proof {
                assert(out@ =~= error_doc(error_text(e)));
            }
            out
        },
    }
}

} // verus!
