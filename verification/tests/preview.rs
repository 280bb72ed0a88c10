use preview::generate_preview;
use preview::decode::decode_state;
use preview::state::DecodeError;

fn assert_contains(hay: &str, needle: &str) {
    assert!(
        hay.contains(needle),
        "expected {:?} inside:\n{}",
        needle,
        hay
    );
}

fn count_occurrences(hay: &str, needle: &str) -> usize {
    hay.matches(needle).count()
}

const PANEL: &str = r#"{"width":24,"height":12,"depth":3,"showGhost":false,"showDims":false,"zoomMode":"normal","holes":[]}"#;

#[test]
fn output_is_framed() {
    let out = generate_preview(PANEL);
    assert!(out.starts_with("<svg viewBox='0 0 480 360'"));
    assert!(out.ends_with("</svg>"));
}

#[test]
fn scenario_plain_panel() {
    // width 24, height 12, zoom normal: base scale min(456/24, 336/12) = 19,
    // scale 6.65, displayed 159.6 x 79.8 at (160.2, 140.1).
    let out = generate_preview(PANEL);
    assert_contains(
        &out,
        "<rect x='160.2' y='140.1' width='159.6' height='79.8' class='front' />",
    );
    assert_eq!(count_occurrences(&out, "class='front'"), 1);
    assert!(!out.contains("class='ghost-back'"));
    assert!(!out.contains("class='ghost-edge'"));
    assert_contains(&out, "<g class='cutouts'></g>");
    assert!(!out.contains("stroke='#555'"));
}

#[test]
fn scenario_spec_hole_selected() {
    // spec wins: diameter 1.5, canvas radius 0.75 * 6.65 = 4.9875, centered.
    let json = r#"{"width":24,"height":12,"depth":3,"showGhost":false,"showDims":false,"zoomMode":"normal","holes":[{"dx":0,"dy":0,"nominal":2,"spec":1.5,"selected":true}]}"#;
    let out = generate_preview(json);
    assert_contains(
        &out,
        "<circle cx='240' cy='180' r='4.9875' class='cutout selected' data-idx='0' />",
    );
    assert_contains(&out, ">SPEC</text>");
    assert_contains(&out, "1.50\"</text>");
}

#[test]
fn scenario_est_hole_clamped() {
    // nominal 2 estimated to 1.86; hx 23.9 snaps to 22.57; canvas x
    // 160.2 + 10.57 * 6.65 + 79.8 = 310.2905.
    let json = r#"{"width":24,"height":12,"depth":3,"showGhost":false,"showDims":false,"zoomMode":"normal","holes":[{"dx":11.9,"dy":0,"nominal":2,"selected":false}]}"#;
    let out = generate_preview(json);
    assert_contains(
        &out,
        "<circle cx='310.2905' cy='180' r='6.1845' class='cutout' data-idx='0' />",
    );
    assert_contains(&out, ">EST</text>");
    assert_contains(&out, "1.86\"</text>");
}

#[test]
fn scenario_malformed_payload() {
    let out = generate_preview(r#"{"width": 24,"#);
    assert!(out.starts_with("<svg"));
    assert!(out.ends_with("</svg>"));
    assert_contains(&out, "state parse error:");
}

#[test]
fn cut_badge_when_no_spec() {
    let json = r#"{"width":24,"height":12,"depth":3,"showGhost":false,"showDims":false,"zoomMode":"normal","holes":[{"dx":0,"dy":0,"nominal":2,"cut":1.2,"selected":false}]}"#;
    let out = generate_preview(json);
    assert_contains(&out, ">CUT</text>");
    assert_contains(&out, "1.20\"</text>");
}

#[test]
fn null_sources_fall_back_to_estimate() {
    let json = r#"{"width":24,"height":12,"depth":3,"showGhost":false,"showDims":false,"zoomMode":"normal","holes":[{"dx":0,"dy":0,"nominal":2,"cut":null,"spec":null,"selected":false}]}"#;
    let out = generate_preview(json);
    assert_contains(&out, ">EST</text>");
    assert_contains(&out, "1.86\"</text>");
}

#[test]
fn default_nominal_when_unset() {
    // nominal 0 is unset: the default 12 estimated by 0.93 gives 11.16,
    // clamped to the panel height 12... 11.16 < 12, so 11.16 stays.
    let json = r#"{"width":24,"height":12,"depth":3,"showGhost":false,"showDims":false,"zoomMode":"normal","holes":[{"dx":0,"dy":0,"nominal":0,"selected":false}]}"#;
    let out = generate_preview(json);
    assert_contains(&out, "11.16\"</text>");
    assert_contains(&out, ">EST</text>");
}

#[test]
fn diameter_clamped_to_panel() {
    // spec 50 exceeds both panel sides; min(50, 24, 12) = 12.
    let json = r#"{"width":24,"height":12,"depth":3,"showGhost":false,"showDims":false,"zoomMode":"normal","holes":[{"dx":0,"dy":0,"nominal":2,"spec":50,"selected":false}]}"#;
    let out = generate_preview(json);
    assert_contains(&out, "12.00\"</text>");
}

#[test]
fn zoom_close_factor() {
    let json = r#"{"width":24,"height":12,"depth":3,"showGhost":false,"showDims":false,"zoomMode":"close","holes":[]}"#;
    let out = generate_preview(json);
    // scale 19 * 0.60 = 11.4: displayed 273.6 x 136.8 at (103.2, 111.6).
    assert_contains(
        &out,
        "<rect x='103.2' y='111.6' width='273.6' height='136.8' class='front' />",
    );
}

#[test]
fn zoom_wide_factor() {
    let json = r#"{"width":24,"height":12,"depth":3,"showGhost":false,"showDims":false,"zoomMode":"wide","holes":[]}"#;
    let out = generate_preview(json);
    // scale 19 * 0.25 = 4.75: displayed 114 x 57 at (183, 151.5).
    assert_contains(&out, "<rect x='183' y='151.5' width='114' height='57' class='front' />");
}

#[test]
fn zoom_default_factor() {
    let json = r#"{"width":24,"height":12,"depth":3,"showGhost":false,"showDims":false,"zoomMode":"default","holes":[]}"#;
    let out = generate_preview(json);
    // scale 19 * 0.45 = 8.55: displayed 205.2 x 102.6 at (137.4, 128.7).
    assert_contains(
        &out,
        "<rect x='137.4' y='128.7' width='205.2' height='102.6' class='front' />",
    );
}

#[test]
fn zoom_unrecognized_falls_back() {
    let json = r#"{"width":24,"height":12,"depth":3,"showGhost":false,"showDims":false,"zoomMode":"panoramic","holes":[]}"#;
    let out = generate_preview(json);
    assert_contains(
        &out,
        "<rect x='137.4' y='128.7' width='205.2' height='102.6' class='front' />",
    );
}

#[test]
fn ghost_panel_and_edges() {
    let json = r#"{"width":24,"height":12,"depth":3,"showGhost":true,"showDims":false,"zoomMode":"normal","holes":[]}"#;
    let out = generate_preview(json);
    // shift = min(20 + 3*2, 140) * 0.6 = 15.6.
    assert_contains(
        &out,
        "<rect x='175.8' y='155.7' width='159.6' height='79.8' class='ghost-back' />",
    );
    assert_contains(
        &out,
        "<line x1='160.2' y1='140.1' x2='175.8' y2='155.7' class='ghost-edge' />",
    );
    assert_eq!(count_occurrences(&out, "class='ghost-edge'"), 4);
}

#[test]
fn ghost_shift_is_capped() {
    // depth 100: 20 + 200 = 220 capped at 140, shift 84.
    let json = r#"{"width":24,"height":12,"depth":100,"showGhost":true,"showDims":false,"zoomMode":"normal","holes":[]}"#;
    let out = generate_preview(json);
    assert_contains(
        &out,
        "<rect x='244.2' y='224.1' width='159.6' height='79.8' class='ghost-back' />",
    );
}

#[test]
fn dimension_lines_and_labels() {
    let json = r#"{"width":24,"height":12,"depth":3,"showGhost":false,"showDims":true,"zoomMode":"normal","holes":[]}"#;
    let out = generate_preview(json);
    assert_contains(
        &out,
        "<line x1='160.2' y1='120.1' x2='319.8' y2='120.1' stroke='#555' stroke-width='1' />",
    );
    assert_contains(&out, "W 24.00 in</text>");
    assert_contains(
        &out,
        "<line x1='349.8' y1='140.1' x2='349.8' y2='219.9' stroke='#555' stroke-width='1' />",
    );
    assert_contains(&out, "H 12.00 in</text>");
    assert_contains(&out, "<text x='240' y='114.1'");
    assert_contains(&out, "<text x='353.8' y='180'");
}

#[test]
fn holes_render_in_input_order() {
    let json = r#"{"width":24,"height":12,"depth":3,"showGhost":false,"showDims":false,"zoomMode":"normal","holes":[{"dx":-6,"dy":0,"nominal":2,"selected":false},{"dx":6,"dy":0,"nominal":2,"selected":false}]}"#;
    let out = generate_preview(json);
    let first = out.find("data-idx='0'").unwrap();
    let second = out.find("data-idx='1'").unwrap();
    assert!(first < second);
}

#[test]
fn unknown_fields_are_skipped() {
    let json = r#"{"width":24,"extra":{"a":[1,2,"}"],"b":"]\""},"height":12,"depth":3,"showGhost":false,"showDims":false,"zoomMode":"normal","holes":[],"note":"hi"}"#;
    let out = generate_preview(json);
    assert_contains(
        &out,
        "<rect x='160.2' y='140.1' width='159.6' height='79.8' class='front' />",
    );
}

#[test]
fn decoded_fields_are_fixed_point() {
    let st = decode_state(PANEL).unwrap();
    assert_eq!(st.width, 240000);
    assert_eq!(st.height, 120000);
    assert_eq!(st.depth, 30000);
    assert!(!st.show_ghost);
    assert!(!st.show_dims);
    assert_eq!(st.holes.len(), 0);
}

#[test]
fn numbers_with_exponents_decode() {
    let json = r#"{"width":2.4e1,"height":1200e-2,"depth":+0,"showGhost":false,"showDims":false,"zoomMode":"normal","holes":[]}"#;
    // a leading plus is not part of the number grammar
    assert!(decode_state(json).is_err());
    let json2 = r#"{"width":2.4e1,"height":1200e-2,"depth":0.0001,"showGhost":false,"showDims":false,"zoomMode":"normal","holes":[]}"#;
    let st = decode_state(json2).unwrap();
    assert_eq!(st.width, 240000);
    assert_eq!(st.height, 120000);
    assert_eq!(st.depth, 1);
}

#[test]
fn negative_offsets_decode() {
    let json = r#"{"width":24,"height":12,"depth":3,"showGhost":false,"showDims":false,"zoomMode":"normal","holes":[{"dx":-1.5,"dy":-0.25,"nominal":2,"selected":false}]}"#;
    let st = decode_state(json).unwrap();
    assert_eq!(st.holes[0].dx, -15000);
    assert_eq!(st.holes[0].dy, -2500);
    assert_eq!(st.holes[0].cut, None);
    assert_eq!(st.holes[0].spec_dia, None);
}

#[test]
fn missing_field_is_rejected() {
    let json = r#"{"width":24,"height":12,"depth":3,"showGhost":false,"showDims":false,"zoomMode":"normal"}"#;
    assert_eq!(decode_state(json).unwrap_err(), DecodeError::MissingField);
    let out = generate_preview(json);
    assert_contains(&out, "state parse error: missing required field");
}

#[test]
fn duplicate_field_is_rejected() {
    let json = r#"{"width":24,"width":25,"height":12,"depth":3,"showGhost":false,"showDims":false,"zoomMode":"normal","holes":[]}"#;
    assert_eq!(decode_state(json).unwrap_err(), DecodeError::DuplicateField);
}

#[test]
fn nonpositive_dimensions_are_rejected() {
    let json = r#"{"width":0,"height":12,"depth":3,"showGhost":false,"showDims":false,"zoomMode":"normal","holes":[]}"#;
    assert_eq!(decode_state(json).unwrap_err(), DecodeError::NonPositiveSize);
    let out = generate_preview(json);
    assert_contains(&out, "state parse error: panel dimensions must be positive");
}

#[test]
fn out_of_range_number_is_rejected() {
    let json = r#"{"width":1e50,"height":12,"depth":3,"showGhost":false,"showDims":false,"zoomMode":"normal","holes":[]}"#;
    assert_eq!(decode_state(json).unwrap_err(), DecodeError::NumberOutOfRange);
}

#[test]
fn trailing_input_is_rejected() {
    let json = r#"{"width":24,"height":12,"depth":3,"showGhost":false,"showDims":false,"zoomMode":"normal","holes":[]} x"#;
    assert_eq!(decode_state(json).unwrap_err(), DecodeError::TrailingInput);
}

#[test]
fn non_object_payload_is_rejected() {
    assert_eq!(decode_state("[1, 2]").unwrap_err(), DecodeError::ExpectedObject);
    assert_eq!(decode_state("").unwrap_err(), DecodeError::ExpectedObject);
}

#[test]
fn wrong_value_shapes_are_rejected() {
    let b = r#"{"width":24,"height":12,"depth":3,"showGhost":42,"showDims":false,"zoomMode":"normal","holes":[]}"#;
    assert_eq!(decode_state(b).unwrap_err(), DecodeError::ExpectedBool);
    let s = r#"{"width":24,"height":12,"depth":3,"showGhost":false,"showDims":false,"zoomMode":42,"holes":[]}"#;
    assert_eq!(decode_state(s).unwrap_err(), DecodeError::ExpectedString);
    let a = r#"{"width":24,"height":12,"depth":3,"showGhost":false,"showDims":false,"zoomMode":"normal","holes":42}"#;
    assert_eq!(decode_state(a).unwrap_err(), DecodeError::ExpectedArray);
    let n = r#"{"width":true,"height":12,"depth":3,"showGhost":false,"showDims":false,"zoomMode":"normal","holes":[]}"#;
    assert_eq!(decode_state(n).unwrap_err(), DecodeError::ExpectedNumber);
}

#[test]
fn tiny_panel_still_renders() {
    // a panel too small for the clearance rule: the clamp favors the far
    // edge and the render stays total
    let json = r#"{"width":0.1,"height":0.1,"depth":1,"showGhost":false,"showDims":false,"zoomMode":"normal","holes":[{"dx":0,"dy":0,"nominal":0,"selected":false}]}"#;
    let out = generate_preview(json);
    assert!(out.starts_with("<svg"));
    assert!(out.ends_with("</svg>"));
    assert_contains(&out, "data-idx='0'");
}

#[test]
fn far_offset_snaps_to_lower_bound() {
    // dx -100 pulls the center far left; the clamp snaps hx to r + 0.5 =
    // 1.43, so the canvas x is 160.2 + (1.43 - 12) * 6.65 + 79.8 = 169.7095.
    let json = r#"{"width":24,"height":12,"depth":3,"showGhost":false,"showDims":false,"zoomMode":"normal","holes":[{"dx":-100,"dy":0,"nominal":2,"selected":false}]}"#;
    let out = generate_preview(json);
    assert_contains(&out, "cx='169.7095'");
}

#[test]
fn whitespace_is_tolerated() {
    let json = "  {\n \"width\" : 24 ,\t\"height\":12, \"depth\":3, \"showGhost\":false, \"showDims\":false, \"zoomMode\": \"normal\" , \"holes\" : [ ] }  ";
    let st = decode_state(json).unwrap();
    assert_eq!(st.width, 240000);
}

#[test]
fn structural_errors_are_reported() {
    assert_eq!(
        decode_state(r#"{"width":24,"#).unwrap_err(),
        DecodeError::UnexpectedEnd
    );
    assert_eq!(
        decode_state(r#"{"width" 24}"#).unwrap_err(),
        DecodeError::ExpectedColon
    );
    assert_eq!(decode_state(r#"{width:24}"#).unwrap_err(), DecodeError::ExpectedKey);
    assert_eq!(
        decode_state(r#"{"a":1 "b":2}"#).unwrap_err(),
        DecodeError::ExpectedSeparator
    );
    assert_eq!(decode_state(r#"{"a":}"#).unwrap_err(), DecodeError::ExpectedValue);
}

#[test]
fn error_messages_reach_the_document() {
    let out = generate_preview("");
    assert!(out.contains("state parse error: expected an object"));
    let out2 = generate_preview(r#"{"width":24,"#);
    assert!(out2.contains("state parse error: unexpected end of input"));
}

#[test]
fn vertical_clamp_is_symmetric() {
    // dy 5.37 puts the center at 11.37: the circle top edge plus the full
    // half-inch clearance crosses the bottom (11.37 + 0.93 + 0.5 > 12), so
    // the center snaps to 12 - 0.93 - 0.5 = 10.57 -- the same +margin rule
    // as on the x axis.
    let json = r#"{"width":24,"height":12,"depth":3,"showGhost":false,"showDims":false,"zoomMode":"normal","holes":[{"dx":0,"dy":5.37,"nominal":2,"selected":false}]}"#;
    let out = generate_preview(json);
    assert!(out.contains("cy='210.3905'"), "{}", out);
}
