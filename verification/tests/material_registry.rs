use bof::census::{
    CensusMesh, MeshCounts,
    mesh_triangles, watchdog_verdict, SceneCensus, Subject, SubjectTally, WatchdogVerdict, BUCKETS,
    OTHER, TRIANGLE_WARN,
};

fn census_with(entries: &[(Option<Subject>, u64, u64, usize)]) -> SceneCensus {
    let mut census = SceneCensus::default();
    for (subject, mesh, material, triangles) in entries {
        census.record(*subject, *mesh, *material, *triangles);
    }
    census
}

#[test]
fn the_census_attributes_what_it_counts() {
    let census = census_with(&[
        (Some(Subject::Meadow), 1, 10, 300),
        (Some(Subject::Meadow), 2, 10, 500),
        (Some(Subject::Terrain), 3, 20, 32_768),
        (None, 4, 30, 12),
    ]);
    let tallies = census.tallies();
    assert_eq!(tallies[Subject::Meadow.index()].triangles, 800);
    assert_eq!(tallies[Subject::Meadow.index()].meshes, 2);
    assert_eq!(tallies[Subject::Terrain.index()].triangles, 32_768);
    assert_eq!(tallies[OTHER].triangles, 12);
    assert_eq!(census.accounted_meshes(), 4);
}

#[test]
fn sharing_a_mesh_and_a_material_is_one_draw_not_two() {
    let census = census_with(&[
        (Some(Subject::Forest), 1, 10, 100),
        (Some(Subject::Forest), 1, 10, 100),
        (Some(Subject::Forest), 1, 11, 100),
    ]);
    assert_eq!(census.tallies()[Subject::Forest.index()].draws, 2);
    assert_eq!(census.draws(), 2);
    assert_eq!(census.materials(), 2);
}

#[test]
fn the_buckets_add_up_to_what_was_counted() {
    let census = census_with(&[
        (Some(Subject::Meadow), 1, 10, 300),
        (Some(Subject::Forest), 2, 20, 6_265),
        (Some(Subject::Terrain), 3, 30, 32_768),
        (None, 4, 40, 12),
    ]);
    let tallies = census.tallies();
    let meshes: u32 = tallies.iter().map(|tally| tally.meshes).sum();
    let triangles: usize = tallies.iter().map(|tally| tally.triangles).sum();
    assert_eq!(meshes, census.accounted_meshes());
    assert_eq!(triangles, 300 + 6_265 + 32_768 + 12);
}

#[test]
fn clearing_leaves_nothing_behind() {
    let mut census = census_with(&[(Some(Subject::Meadow), 1, 10, 300)]);
    census.clear();
    assert_eq!(census.accounted_meshes(), 0);
    assert_eq!(census.draws(), 0);
    assert_eq!(census.materials(), 0);
    assert_eq!(census.tallies(), [SubjectTally::default(); BUCKETS]);
}

#[test]
fn a_draw_shared_across_subjects_counts_once_overall() {
    let census = census_with(&[
        (Some(Subject::Meadow), 1, 10, 5),
        (Some(Subject::Forest), 1, 10, 5),
    ]);
    assert_eq!(census.draws(), 1);
    assert_eq!(census.tallies()[Subject::Meadow.index()].draws, 1);
    assert_eq!(census.tallies()[Subject::Forest.index()].draws, 1);
    assert_eq!(Subject::Terrain.label(), "terreno");
}

#[test]
fn triangle_count_reads_indexed_meshes() {
    assert_eq!(mesh_triangles(Some(6265 * 3), 0), 6265);
    assert!(mesh_triangles(Some(6265 * 3), 0) > TRIANGLE_WARN);
    // Without indices, every three vertices are a triangle.
    assert_eq!(mesh_triangles(None, 12), 4);
}

#[test]
fn a_graybox_primitive_stays_under_budget() {
    assert!(mesh_triangles(Some(320 * 3), 0) <= TRIANGLE_WARN);
}

#[test]
fn the_watchdog_marks_a_loaded_heavy_mesh_as_checked() {
    assert_eq!(
        watchdog_verdict(Some(6265)),
        WatchdogVerdict::Checked { triangles: 6265, warn: true }
    );
    assert_eq!(
        watchdog_verdict(Some(TRIANGLE_WARN)),
        WatchdogVerdict::Checked { triangles: TRIANGLE_WARN, warn: false }
    );
}

#[test]
fn the_watchdog_leaves_an_unloaded_mesh_unmarked_to_retry_later() {
    assert_eq!(watchdog_verdict(None), WatchdogVerdict::Retry);
}

fn shown(subject: Option<Subject>, mesh: u64, material: u64, indices: usize) -> CensusMesh {
    CensusMesh {
        visible: true,
        subject,
        mesh,
        material,
        counts: Some(MeshCounts { index_count: Some(indices), vertex_count: 0 }),
    }
}

#[test]
fn counting_a_material_skips_culled_meshes_and_unloaded_assets() {
    let mut census = SceneCensus::default();
    let mut culled = shown(Some(Subject::Meadow), 9, 90, 3_000);
    culled.visible = false;
    let loading = CensusMesh { counts: None, ..shown(Some(Subject::Forest), 5, 50, 0) };
    let unindexed = CensusMesh {
        counts: Some(MeshCounts { index_count: None, vertex_count: 36 }),
        ..shown(None, 6, 60, 0)
    };
    census.count_visible(&[
        shown(Some(Subject::Forest), 1, 10, 300),
        shown(Some(Subject::Forest), 1, 10, 300),
        culled,
        loading,
        unindexed,
    ]);
    let tallies = census.tallies();
    assert_eq!(census.accounted_meshes(), 4);
    assert_eq!(tallies[Subject::Forest.index()].meshes, 3);
    assert_eq!(tallies[Subject::Forest.index()].triangles, 200);
    assert_eq!(tallies[Subject::Forest.index()].draws, 2);
    assert_eq!(tallies[Subject::Meadow.index()], SubjectTally::default());
    assert_eq!(tallies[OTHER].triangles, 12);
    let meshes: u32 = tallies.iter().map(|tally| tally.meshes).sum();
    assert_eq!(meshes, census.accounted_meshes());
    assert_eq!(census.draws(), 3);
    assert_eq!(census.materials(), 3);
}
