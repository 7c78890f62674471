//! The ways in which the demo overlays the wireframe on the mesh.

use vstd::prelude::*;

verus! {

/// The technique by which the wireframe is drawn.
#[derive(PartialEq, Eq, Structural, Copy, Clone, Debug)]
pub enum WireframeMode {
    /// No wireframe.
    Disabled,
    /// One pass, the edges found in a geometry stage.
    SinglePass,
    /// One pass, with the edge distance corrected for perspective.
    SinglePassCorrection,
    /// Two passes: the filled mesh, then its edges as lines.
    MultiPass,
}

impl WireframeMode {
    /// The mode that the entry `mode` of the selection stands for. A number
    /// that is no entry stands for no wireframe.
    pub fn from_int(mode: u32) -> (selected: WireframeMode)
        ensures
            selected == match mode {
                1 => WireframeMode::SinglePass,
                2 => WireframeMode::SinglePassCorrection,
                3 => WireframeMode::MultiPass,
                _ => WireframeMode::Disabled,
            },
    {
        match mode {
            0 => WireframeMode::Disabled,
            1 => WireframeMode::SinglePass,
            2 => WireframeMode::SinglePassCorrection,
            3 => WireframeMode::MultiPass,
            _ => WireframeMode::Disabled,
        }
    }
}

} // verus!
