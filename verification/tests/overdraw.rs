use bof::overdraw::{
    material_override, overdraw_variant, saved_mesh_step, wireframe_wanted, Cull, SavedMeshStep,
};

#[test]
fn overdraw_variants_preserve_the_source_cull_mode() {
    assert_eq!(overdraw_variant(Some(Cull::Front)), Cull::Front);
    assert_eq!(overdraw_variant(Some(Cull::Neither)), Cull::Neither);
    assert_eq!(overdraw_variant(None), Cull::Back);
}

#[test]
fn overdraw_handles_late_spawn_replacement_restore_and_orphan_cleanup() {
    // Open: a replaced diagnostic is put back, an orphan is cleaned up.
    assert_eq!(saved_mesh_step(true, true, false), SavedMeshStep::Reapply);
    assert_eq!(saved_mesh_step(true, false, true), SavedMeshStep::DropOrphan);
    assert_eq!(saved_mesh_step(true, true, true), SavedMeshStep::Keep);
    // Closed: first the diagnostic comes off, then the saved material comes back.
    assert_eq!(saved_mesh_step(false, true, true), SavedMeshStep::RemoveDiagnostic);
    assert_eq!(saved_mesh_step(false, true, false), SavedMeshStep::Restore { reinsert: true });
    assert_eq!(saved_mesh_step(false, false, false), SavedMeshStep::Restore { reinsert: false });
}

#[test]
fn the_wireframe_yields_to_the_overdraw_view() {
    assert!(wireframe_wanted(true, false));
    assert!(!wireframe_wanted(true, true));
    assert!(!wireframe_wanted(false, false));
    assert!(material_override(false, true));
    assert!(!material_override(false, false));
}
