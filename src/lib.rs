//! Verified core of a vector path library built for interactive editing.
//!
//! The modules here hold the decision logic of the library: how Sturm
//! sign sequences are counted, how a root-bearing interval is bisected until
//! each piece isolates one root, the order in which refinement seeds are
//! visited, how nearest-point candidates are ranked, which kind of curve two
//! adjacent points produce, and how a shape enumerates its curves.
use vstd::prelude::*;

pub mod curve;
pub mod isolate;
pub mod nearest;
pub mod seeds;
pub mod shape;
pub mod sign;

pub use curve::CurveKind;
pub use isolate::{isolate_roots, Isolated};
pub use nearest::{min_position, total_order_key, NearestKey};
pub use seeds::binary_split_points;
pub use shape::{PointAction, Shape};
pub use sign::{sign_changes, Sign};
