//! The closed label set of the grid, parsing of label tokens, and the fixed
//! label-to-pixel-color table used by the renderer.

use vstd::prelude::*;

verus! {

/// A cell's label. `Red`, `Blue` and `Yellow` are trainable: they seed
/// clusters and are the only labels classification produces. `White` and
/// `Black` are display-only. `Unlabeled` marks a cell awaiting
/// classification.
#[derive(Clone, Copy, Debug, PartialEq, Eq, Structural)]
pub enum Label {
    Red,
    Blue,
    Yellow,
    White,
    Black,
    Unlabeled,
}

/// The label a recognized token stands for; `None` for any other token.
pub open spec fn label_of_token(s: Seq<char>) -> Option<Label> {
    if s == "Red"@ {
        Some(Label::Red)
    } else if s == "Blue"@ {
        Some(Label::Blue)
    } else if s == "Yellow"@ {
        Some(Label::Yellow)
    } else if s == "White"@ {
        Some(Label::White)
    } else if s == "Black"@ {
        Some(Label::Black)
    } else {
        None
    }
}

/// The label a token maps to when the grid is loaded: one of the five color
/// tokens names its label, the marker token `"None"` marks the cell
/// `Unlabeled`, and any other token is unparseable.
pub open spec fn parse_token_spec(s: Seq<char>) -> Option<Label> {
    if s == "None"@ {
        Some(Label::Unlabeled)
    } else {
        label_of_token(s)
    }
}

impl Label {
    /// Parses one of the five recognized tokens; any other input is an error.
    pub fn from_str(input: &str) -> (r: Result<Label, ()>)
        ensures
            match r {
                Ok(l) => label_of_token(input@) == Some(l),
                Err(_) => label_of_token(input@) is None,
            },
    {
        let s: String = input.to_owned();
        if s == "Red".to_owned() {
            Ok(Label::Red)
        } else if s == "Blue".to_owned() {
            Ok(Label::Blue)
        } else if s == "Yellow".to_owned() {
            Ok(Label::Yellow)
        } else if s == "White".to_owned() {
            Ok(Label::White)
        } else if s == "Black".to_owned() {
            Ok(Label::Black)
        } else {
            Err(())
        }
    }

    /// Maps a token to a label as the loader does: the five color tokens
    /// name their labels, the marker token `"None"` marks an unlabeled
    /// cell, and any other token is unparseable.
    pub fn parse(input: &str) -> (r: Option<Label>)
        ensures
            r == parse_token_spec(input@),
    {
        let s: String = input.to_owned();
        if s == "None".to_owned() {
            return Some(Label::Unlabeled);
        }
        match Label::from_str(input) {
            Ok(l) => Some(l),
            Err(_) => None,
        }
    }
}

/// The fixed label-to-pixel-color table: the RGB value a labeled cell is
/// drawn with, or `None` for an unlabeled cell, which gets no overlay pixel.
pub open spec fn label_color_spec(label: Label) -> Option<(u8, u8, u8)> {
    match label {
        Label::Red => Some((255u8, 0u8, 0u8)),
        Label::Blue => Some((0u8, 0u8, 255u8)),
        Label::Yellow => Some((255u8, 255u8, 0u8)),
        Label::White => Some((255u8, 255u8, 255u8)),
        Label::Black => Some((0u8, 0u8, 0u8)),
        Label::Unlabeled => None,
    }
}

/// The RGB pixel color a label is rendered with, `None` for `Unlabeled`.
pub fn label_pixel_color(label: Label) -> (r: Option<(u8, u8, u8)>)
    ensures
        r == label_color_spec(label),
{
    match label {
        Label::Red => Some((255, 0, 0)),
        Label::Blue => Some((0, 0, 255)),
        Label::Yellow => Some((255, 255, 0)),
        Label::White => Some((255, 255, 255)),
        Label::Black => Some((0, 0, 0)),
        Label::Unlabeled => None,
    }
}

} // verus!
