//! Smooth paths through a sequence of points: one move-to command for the
//! first point, then one cubic curve command for each later point, with
//! control points estimated from each point's neighbours.
//!
//! `plan` says which points each control point is estimated from, `decimal`
//! writes coordinates to two decimal places, and `path` joins the commands.

pub mod decimal;
pub mod path;
pub mod plan;
