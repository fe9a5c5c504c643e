//! How a stroked outline is drawn.

use vstd::prelude::*;
use crate::scalar::{is_non_positive, DEFAULT_MITER_LIMIT};

verus! {

/// The geometry put at an interior corner of a stroked outline.
#[derive(Clone, Copy, Debug, PartialEq, Eq, Structural)]
pub enum LineJoin {
    /// A sharp corner, cut off to a bevel where it would pass the miter limit.
    Miter,
    /// A rounded corner.
    Round,
    /// A corner cut off straight.
    Bevel,
}

/// The geometry put at the two ends of an open stroked subpath.
#[derive(Clone, Copy, Debug, PartialEq, Eq, Structural)]
pub enum LineCap {
    /// The stroke stops at the end point.
    Butt,
    /// A half disc around the end point.
    Round,
    /// The stroke goes on for half the line width.
    Square,
}

/// Line width, join, cap and miter limit of a stroke. Width and miter limit
/// are bit patterns of binary32 numbers.
#[derive(Clone, Copy, Debug, PartialEq, Eq, Structural)]
pub struct StrokeStyle {
    pub line_width: u32,
    pub line_join: LineJoin,
    pub line_cap: LineCap,
    pub miter_limit: u32,
}

impl StrokeStyle {
    /// The style of a plain stroke of the given width: miter joins, butt
    /// caps, a miter limit of 4.
    pub open spec fn plain(line_width: u32) -> StrokeStyle {
        StrokeStyle {
            line_width,
            line_join: LineJoin::Miter,
            line_cap: LineCap::Butt,
            miter_limit: DEFAULT_MITER_LIMIT,
        }
    }

    /// The line width is above zero, or not a number.
    pub open spec fn has_usable_width(self) -> bool {
        !is_non_positive(self.line_width)
    }

    /// The style of a plain stroke of the given width.
    pub fn new(line_width: u32) -> (style: StrokeStyle)
        ensures
            style == StrokeStyle::plain(line_width),
    {
        StrokeStyle {
            line_width,
            line_join: LineJoin::Miter,
            line_cap: LineCap::Butt,
            miter_limit: DEFAULT_MITER_LIMIT,
        }
    }

    /// The same style with another join.
    pub fn with_line_join(self, line_join: LineJoin) -> (style: StrokeStyle)
        ensures
            style == (StrokeStyle { line_join, ..self }),
    {
        StrokeStyle { line_join, ..self }
    }

    /// The same style with another cap.
    pub fn with_line_cap(self, line_cap: LineCap) -> (style: StrokeStyle)
        ensures
            style == (StrokeStyle { line_cap, ..self }),
    {
        StrokeStyle { line_cap, ..self }
    }
}

} // verus!
