//! The rule that binds the control points of two adjacent curve points to
//! the kind of curve between them.
use vstd::prelude::*;

verus! {

/// Kind of curve between a start point and an end point, decided by the
/// start's outgoing control point and the end's incoming control point.
#[derive(Clone, Copy, Debug, PartialEq, Eq, Structural)]
pub enum CurveKind {
    /// Neither control point exists: a straight segment.
    Segment,
    /// Only the start's outgoing control point exists: a quadratic curve
    /// raised to a cubic.
    QuadFromStart,
    /// Only the end's incoming control point exists: a quadratic curve
    /// raised to a cubic.
    QuadFromEnd,
    /// Both control points exist: a cubic curve.
    Cubic,
}

impl CurveKind {
    /// The kind of curve for the given presence of the two facing control
    /// points.
    pub fn of(start_has_out: bool, end_has_in: bool) -> (r: CurveKind)
        ensures
            (r == CurveKind::Segment) == (!start_has_out && !end_has_in),
            (r == CurveKind::QuadFromStart) == (start_has_out && !end_has_in),
            (r == CurveKind::QuadFromEnd) == (!start_has_out && end_has_in),
            (r == CurveKind::Cubic) == (start_has_out && end_has_in),
    {
        match (start_has_out, end_has_in) {
            (true, true) => CurveKind::Cubic,
            (true, false) => CurveKind::QuadFromStart,
            (false, true) => CurveKind::QuadFromEnd,
            (false, false) => CurveKind::Segment,
        }
    }

    /// Whether the curve is a Bezier curve rather than a straight segment.
    pub fn is_bezier(&self) -> (r: bool)
        ensures
            r == (*self != CurveKind::Segment),
    {
        !matches!(self, CurveKind::Segment)
    }
}

} // verus!
