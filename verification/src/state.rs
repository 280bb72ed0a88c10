//! The decoded panel state and its mathematical model.
//!
//! `State` is the typed configuration one render works from: panel size,
//! the two optional layers, the zoom preset and the hole list.  Its ghost
//! counterpart `StateModel` carries the same data over unbounded integers,
//! and every contract of the library speaks of that model.

use vstd::prelude::*;
use crate::fixed::{abs_val, MAX_NUM};

verus! {

/// Zoom preset; unrecognized names in the input fall back to `Default`.
#[derive(Clone, Copy, PartialEq, Eq, Structural, Debug)]
pub enum ZoomMode {
    Close,
    Normal,
    Wide,
    Default,
}

/// Zoom factor table, in fixed-point steps.
pub open spec fn zoom_factor_val(z: ZoomMode) -> int {
    match z {
        ZoomMode::Close => 6000,
        ZoomMode::Normal => 3500,
        ZoomMode::Wide => 2500,
        ZoomMode::Default => 4500,
    }
}

/// Zoom factor of a preset.
pub fn zoom_factor(z: ZoomMode) -> (r: i64)
    ensures
        r as int == zoom_factor_val(z),
{
    match z {
        ZoomMode::Close => 6000,
        ZoomMode::Normal => 3500,
        ZoomMode::Wide => 2500,
        ZoomMode::Default => 4500,
    }
}

/// Ghost model of one hole.
pub struct HoleModel {
    pub dx: int,
    pub dy: int,
    pub nominal: int,
    pub cut: Option<int>,
    pub spec_dia: Option<int>,
    pub selected: bool,
}

/// Ghost model of the whole configuration.
pub struct StateModel {
    pub width: int,
    pub height: int,
    pub depth: int,
    pub show_ghost: bool,
    pub show_dims: bool,
    pub zoom: ZoomMode,
    pub holes: Seq<HoleModel>,
}

/// One hole: center offset from the panel center, the three diameter
/// sources, and the display-only selection flag.  Lengths are fixed-point
/// inches.
#[derive(Clone, Copy, Debug)]
pub struct Hole {
    pub dx: i64,
    pub dy: i64,
    pub nominal: i64,
    pub cut: Option<i64>,
    pub spec_dia: Option<i64>,
    pub selected: bool,
}

/// The model of an optional fixed-point value.
pub open spec fn opt_val(o: Option<i64>) -> Option<int> {
    match o {
        Some(v) => Some(v as int),
        None => None,
    }
}

impl View for Hole {
    type V = HoleModel;

    open spec fn view(&self) -> HoleModel {
        HoleModel {
            dx: self.dx as int,
            dy: self.dy as int,
            nominal: self.nominal as int,
            cut: opt_val(self.cut),
            spec_dia: opt_val(self.spec_dia),
            selected: self.selected,
        }
    }
}

/// The decoded configuration of one render.
#[derive(Debug)]
pub struct State {
    pub width: i64,
    pub height: i64,
    pub depth: i64,
    pub show_ghost: bool,
    pub show_dims: bool,
    pub zoom: ZoomMode,
    pub holes: Vec<Hole>,
}

impl View for State {
    type V = StateModel;

    open spec fn view(&self) -> StateModel {
        StateModel {
            width: self.width as int,
            height: self.height as int,
            depth: self.depth as int,
            show_ghost: self.show_ghost,
            show_dims: self.show_dims,
            zoom: self.zoom,
            holes: self.holes@.map_values(|h: Hole| h@),
        }
    }
}

/// Every number of a hole is within the decoder's range bound.
pub open spec fn hole_wf(h: HoleModel) -> bool {
    &&& abs_val(h.dx) <= MAX_NUM as int
    &&& abs_val(h.dy) <= MAX_NUM as int
    &&& abs_val(h.nominal) <= MAX_NUM as int
    &&& (h.cut matches Some(c) ==> abs_val(c) <= MAX_NUM as int)
    &&& (h.spec_dia matches Some(s) ==> abs_val(s) <= MAX_NUM as int)
}

/// A well-formed configuration: positive, bounded panel dimensions and
/// bounded hole numbers.  The decoder establishes this for every state it
/// returns.
pub open spec fn state_wf(st: StateModel) -> bool {
    &&& 0 < st.width <= MAX_NUM as int
    &&& 0 < st.height <= MAX_NUM as int
    &&& abs_val(st.depth) <= MAX_NUM as int
    &&& forall|i: int| 0 <= i < st.holes.len() ==> hole_wf(#[trigger] st.holes[i])
}

/// The one recognized failure: the input payload could not be decoded into
/// a `State`.
#[derive(Clone, Copy, PartialEq, Eq, Structural, Debug)]
pub enum DecodeError {
    ExpectedObject,
    UnexpectedEnd,
    ExpectedNumber,
    ExpectedBool,
    ExpectedString,
    ExpectedArray,
    ExpectedColon,
    ExpectedSeparator,
    ExpectedKey,
    ExpectedValue,
    DuplicateField,
    MissingField,
    NumberOutOfRange,
    NonPositiveSize,
    TrailingInput,
}

/// Diagnostic text of a decode failure.
pub open spec fn error_text(e: DecodeError) -> Seq<char> {
    match e {
        DecodeError::ExpectedObject => "expected an object"@,
        DecodeError::UnexpectedEnd => "unexpected end of input"@,
        DecodeError::ExpectedNumber => "expected a number"@,
        DecodeError::ExpectedBool => "expected a boolean"@,
        DecodeError::ExpectedString => "expected a string"@,
        DecodeError::ExpectedArray => "expected an array"@,
        DecodeError::ExpectedColon => "expected ':' after a key"@,
        DecodeError::ExpectedSeparator => "expected ',' or a closing bracket"@,
        DecodeError::ExpectedKey => "expected a key string"@,
        DecodeError::ExpectedValue => "expected a value"@,
        DecodeError::DuplicateField => "duplicate field"@,
        DecodeError::MissingField => "missing required field"@,
        DecodeError::NumberOutOfRange => "number out of range"@,
        DecodeError::NonPositiveSize => "panel dimensions must be positive"@,
        DecodeError::TrailingInput => "unexpected trailing characters"@,
    }
}

impl DecodeError {
    /// Diagnostic text of this failure.
    pub fn message(&self) -> (r: &'static str)
        ensures
            r@ == error_text(*self),
    {
        match self {
            DecodeError::ExpectedObject => "expected an object",
            DecodeError::UnexpectedEnd => "unexpected end of input",
            DecodeError::ExpectedNumber => "expected a number",
            DecodeError::ExpectedBool => "expected a boolean",
            DecodeError::ExpectedString => "expected a string",
            DecodeError::ExpectedArray => "expected an array",
            DecodeError::ExpectedColon => "expected ':' after a key",
            DecodeError::ExpectedSeparator => "expected ',' or a closing bracket",
            DecodeError::ExpectedKey => "expected a key string",
            DecodeError::ExpectedValue => "expected a value",
            DecodeError::DuplicateField => "duplicate field",
            DecodeError::MissingField => "missing required field",
            DecodeError::NumberOutOfRange => "number out of range",
            DecodeError::NonPositiveSize => "panel dimensions must be positive",
            DecodeError::TrailingInput => "unexpected trailing characters",
        }
    }
}

} // verus!
