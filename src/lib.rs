//! Frame-by-frame sprite animations: the data model, a linear undo/redo
//! history of reversible actions over it, and a codec that packs frame
//! bitmaps into one sheet of uniform cells and cuts them out again.
use vstd::prelude::*;

pub mod geometry;
pub mod model;
pub mod action;
pub mod editor;
pub mod replay;
pub mod bitmap;
pub mod pack;
pub mod sheet;

verus! {

} // verus!
