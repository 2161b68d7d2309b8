//! The overdraw diagnostic: every instrumented mesh temporarily draws with an
//! additive material that keeps its own face culling, and gets its material
//! back when the view closes.
//!
//! The swap is a small per-mesh state machine. A mesh that joins while the
//! view is open is swapped too; a mesh whose saved material survives its mesh
//! is cleaned up; and closing the view first removes the diagnostic material
//! and only on the next pass restores its own material, so that a frame never
//! draws with both.

use vstd::prelude::*;

verus! {

/// Which faces a material culls.
#[derive(Clone, Copy, PartialEq, Eq, Debug, Structural)]
pub enum Cull {
    Front,
    Back,
    /// Culls none: double sided.
    Neither,
}

/// The diagnostic variant for a mesh: the one with its material's culling, or
/// back-face culling when the material is not loaded.
pub fn overdraw_variant(material_cull: Option<Cull>) -> (variant: Cull)
    ensures
        variant == (match material_cull {
            Some(cull) => cull,
            None => Cull::Back,
        }),
{
    match material_cull {
        Some(cull) => cull,
        None => Cull::Back,
    }
}

/// What happens to a mesh whose own material is saved.
#[derive(Clone, Copy, PartialEq, Eq, Debug, Structural)]
pub enum SavedMeshStep {
    /// Nothing to do this pass.
    Keep,
    /// The mesh is gone: drop the diagnostic material and the saved material.
    DropOrphan,
    /// The diagnostic material was replaced: put it back.
    Reapply,
    /// The view closed: remove the diagnostic material first, and note that
    /// the diagnostic still leaves residue this frame.
    RemoveDiagnostic,
    /// The view closed and the diagnostic is off the mesh: forget the saved
    /// material, and give it back when the mesh still exists.
    Restore { reinsert: bool },
}

/// The step for a mesh with a saved material.
pub open spec fn spec_saved_mesh_step(overdraw_on: bool, has_mesh: bool, has_diagnostic: bool) -> SavedMeshStep {
    if overdraw_on {
        if !has_mesh {
            SavedMeshStep::DropOrphan
        } else if !has_diagnostic {
            SavedMeshStep::Reapply
        } else {
            SavedMeshStep::Keep
        }
    } else if has_diagnostic {
        SavedMeshStep::RemoveDiagnostic
    } else {
        SavedMeshStep::Restore { reinsert: has_mesh }
    }
}

/// The step for a mesh with a saved material, from whether the view is open,
/// whether the mesh still exists and whether it draws with the diagnostic.
pub fn saved_mesh_step(overdraw_on: bool, has_mesh: bool, has_diagnostic: bool) -> (step:
    SavedMeshStep)
    ensures
        step == spec_saved_mesh_step(overdraw_on, has_mesh, has_diagnostic),
{
    if overdraw_on {
        if !has_mesh {
            SavedMeshStep::DropOrphan
        } else if !has_diagnostic {
            SavedMeshStep::Reapply
        } else {
            SavedMeshStep::Keep
        }
    } else if has_diagnostic {
        SavedMeshStep::RemoveDiagnostic
    } else {
        SavedMeshStep::Restore { reinsert: has_mesh }
    }
}

/// The wireframe is global only when asked for and the overdraw view is not
/// drawing over it.
pub fn wireframe_wanted(wireframe: bool, overdraw: bool) -> (wanted: bool)
    ensures
        wanted == (wireframe && !overdraw),
{
    wireframe && !overdraw
}

/// Materials are overridden while the view is open, and for the frame in
/// which the last diagnostic material comes off.
pub fn material_override(overdraw: bool, residue: bool) -> (overridden: bool)
    ensures
        overridden == (overdraw || residue),
{
    overdraw || residue
}

/// Closing the view never draws a mesh with both materials and never loses
/// one: a mesh that draws with the diagnostic loses it before its own
/// material comes back, and that material comes back exactly when the mesh still exists.
pub proof fn closing_the_view_restores_in_two_passes(has_mesh: bool)
    ensures
        spec_saved_mesh_step(false, has_mesh, true) == SavedMeshStep::RemoveDiagnostic,
        spec_saved_mesh_step(false, has_mesh, false) == (SavedMeshStep::Restore {
            reinsert: has_mesh,
        }),
        spec_saved_mesh_step(true, false, true) == SavedMeshStep::DropOrphan,
{
}


} // verus!
