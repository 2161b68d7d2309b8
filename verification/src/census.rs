//! The scene census: who each triangle belongs to.
//!
//! A scene total does not answer "how much is the meadow putting on screen
//! right now", which is the question every grass adjustment needs. The census
//! splits what it counts among [`Subject`]s, plus one bucket for the rest. A
//! draw is a distinct `(mesh, material)` pair, because the renderer batches by
//! that pair: two entities that share both are **one** draw.
//!
//! Meshes and materials are identified by plain integers; the renderer side
//! maps its asset ids onto them one for one.

use vstd::prelude::*;

verus! {

/// Which system a mesh belongs to, for the census split. Deliberately few and
/// coarse: the systems that compete for the frame.
#[derive(Clone, Copy, PartialEq, Eq, Debug, Hash, Structural)]
pub enum Subject {
    Meadow,
    Forest,
    Terrain,
}

/// Buckets of the split: one per subject, plus the rest.
pub const BUCKETS: usize = 4;
/// The bucket of meshes that declare no subject.
pub const OTHER: usize = 3;

/// A subject's bucket.
pub open spec fn spec_subject_index(subject: Subject) -> int {
    match subject {
        Subject::Meadow => 0,
        Subject::Forest => 1,
        Subject::Terrain => 2,
    }
}

/// The bucket a mesh with this (optional) subject is counted in.
pub open spec fn spec_bucket(subject: Option<Subject>) -> int {
    match subject {
        Some(s) => spec_subject_index(s),
        None => OTHER as int,
    }
}

impl Subject {
    /// Every subject, in bucket order.
    pub const ALL: [Subject; 3] = [Subject::Meadow, Subject::Forest, Subject::Terrain];

    /// The subject's name on the HUD.
    pub fn label(self) -> (label: &'static str)
        ensures
            label@ == (match self {
                Subject::Meadow => "pradera"@,
                Subject::Forest => "bosque"@,
                Subject::Terrain => "terreno"@,
            }),
    {
        match self {
            Subject::Meadow => "pradera",
            Subject::Forest => "bosque",
            Subject::Terrain => "terreno",
        }
    }

    /// The subject's bucket.
    pub fn index(self) -> (index: usize)
        ensures
            index as int == spec_subject_index(self),
    {
        match self {
            Subject::Meadow => 0,
            Subject::Forest => 1,
            Subject::Terrain => 2,
        }
    }
}

/// What a subject puts in the frame.
#[derive(Clone, Copy, PartialEq, Eq, Debug, Structural)]
pub struct SubjectTally {
    pub meshes: u32,
    pub triangles: usize,
    pub draws: usize,
}

impl Default for SubjectTally {
    fn default() -> (tally: SubjectTally)
        ensures
            tally == (SubjectTally { meshes: 0, triangles: 0, draws: 0 }),
    {
        SubjectTally { meshes: 0, triangles: 0, draws: 0 }
    }
}

/// Triangles of a mesh: a third of its indices, or, without indices, a third of
/// its vertices (an unindexed mesh lists every vertex of every triangle).
pub fn mesh_triangles(index_count: Option<usize>, vertex_count: usize) -> (triangles: usize)
    ensures
        triangles == (match index_count {
            Some(n) => n / 3,
            None => vertex_count / 3,
        }),
{
    match index_count {
        Some(n) => n / 3,
        None => vertex_count / 3,
    }
}

/// A single mesh over this many triangles is too heavy for graybox: a
/// primitive proxy is hundreds of triangles, so thousands means a detailed
/// model slipped in where a placeholder belongs.
pub const TRIANGLE_WARN: usize = 2_000;

/// What the triangle-budget watchdog does with one mesh.
#[derive(Clone, Copy, PartialEq, Eq, Debug, Structural)]
pub enum WatchdogVerdict {
    /// The mesh has not loaded yet: leave it unmarked and look again next frame.
    Retry,
    /// Mark it checked so that it is counted exactly once; `warn` when it blows
    /// the budget.
    Checked { triangles: usize, warn: bool },
}

/// The watchdog's verdict on a mesh, from its triangle count once loaded.
pub fn watchdog_verdict(loaded_triangles: Option<usize>) -> (verdict: WatchdogVerdict)
    ensures
        verdict == (match loaded_triangles {
            None => WatchdogVerdict::Retry,
            Some(t) => WatchdogVerdict::Checked { triangles: t, warn: t > TRIANGLE_WARN },
        }),
{
    match loaded_triangles {
        None => WatchdogVerdict::Retry,
        Some(t) => WatchdogVerdict::Checked { triangles: t, warn: t > TRIANGLE_WARN },
    }
}

/// Sum of the mesh counts of the buckets.
pub open spec fn sum_meshes(tallies: Seq<SubjectTally>) -> int
    decreases tallies.len(),
{
    if tallies.len() == 0 {
        0
    } else {
        sum_meshes(tallies.drop_last()) + tallies.last().meshes
    }
}

/// Sum of the triangle counts of the buckets.
pub open spec fn sum_triangles(tallies: Seq<SubjectTally>) -> int
    decreases tallies.len(),
{
    if tallies.len() == 0 {
        0
    } else {
        sum_triangles(tallies.drop_last()) + tallies.last().triangles
    }
}

proof fn lemma_sums_after_update(t: Seq<SubjectTally>, b: int, new: SubjectTally)
    requires
        0 <= b < t.len(),
    ensures
        sum_meshes(t.update(b, new)) == sum_meshes(t) - t[b].meshes + new.meshes,
        sum_triangles(t.update(b, new)) == sum_triangles(t) - t[b].triangles + new.triangles,
    decreases t.len(),
{
    if b == t.len() - 1 {
        assert(t.update(b, new).drop_last() =~= t.drop_last());
    } else {
        lemma_sums_after_update(t.drop_last(), b, new);
        assert(t.update(b, new).drop_last() =~= t.drop_last().update(b, new));
    }
}

/// Adds `x` to a duplicate-free list unless it is already there.
fn insert_unique_pair(list: &mut Vec<(u64, u64)>, x: (u64, u64))
    requires
        old(list)@.no_duplicates(),
    ensures
        final(list)@.no_duplicates(),
        final(list)@.to_set() == old(list)@.to_set().insert(x),
{
    broadcast use {vstd::seq_lib::group_seq_properties, vstd::set::group_set_axioms};
    let mut i: usize = 0;
    while i < list.len()
        invariant
            i <= list@.len(),
            list@ == old(list)@,
            old(list)@.no_duplicates(),
            forall|j: int| 0 <= j < i ==> list@[j] != x,
        decreases list@.len() - i,
    {
        if list[i].0 == x.0 && list[i].1 == x.1 {
            proof {
                assert(list@.to_set().contains(x));
                assert(list@.to_set().insert(x) =~= list@.to_set());
            }
            return;
        }
        i = i + 1;
    }
    list.push(x);
    proof {
        assert(list@.to_set() =~= old(list)@.to_set().insert(x));
    }
}

/// Adds `x` to a duplicate-free list unless it is already there.
fn insert_unique_id(list: &mut Vec<u64>, x: u64)
    requires
        old(list)@.no_duplicates(),
    ensures
        final(list)@.no_duplicates(),
        final(list)@.to_set() == old(list)@.to_set().insert(x),
{
    broadcast use {vstd::seq_lib::group_seq_properties, vstd::set::group_set_axioms};
    let mut i: usize = 0;
    while i < list.len()
        invariant
            i <= list@.len(),
            list@ == old(list)@,
            old(list)@.no_duplicates(),
            forall|j: int| 0 <= j < i ==> list@[j] != x,
        decreases list@.len() - i,
    {
        if list[i] == x {
            proof {
                assert(list@.to_set().contains(x));
                assert(list@.to_set().insert(x) =~= list@.to_set());
            }
            return;
        }
        i = i + 1;
    }
    list.push(x);
    proof {
        assert(list@.to_set() =~= old(list)@.to_set().insert(x));
    }
}

/// What the renderer knows of a mesh asset: its index count, if indexed, and
/// its vertex count.
#[derive(Clone, Copy, PartialEq, Eq, Debug, Structural)]
pub struct MeshCounts {
    pub index_count: Option<usize>,
    pub vertex_count: usize,
}

/// One mesh of an instrumented material, as the census sees it: whether it is
/// visible this frame, its subject, its mesh and material identities, and its
/// asset's counts (`None` while the asset has not loaded).
#[derive(Clone, Copy, PartialEq, Eq, Debug, Structural)]
pub struct CensusMesh {
    pub visible: bool,
    pub subject: Option<Subject>,
    pub mesh: u64,
    pub material: u64,
    pub counts: Option<MeshCounts>,
}

/// The triangles a mesh adds: none while its asset has not loaded.
pub open spec fn entry_triangles(e: CensusMesh) -> nat {
    match e.counts {
        None => 0,
        Some(c) => match c.index_count {
            Some(n) => (n / 3) as nat,
            None => (c.vertex_count / 3) as nat,
        },
    }
}

/// The mesh is counted in bucket `b`.
pub open spec fn counted_in(e: CensusMesh, b: int) -> bool {
    e.visible && spec_bucket(e.subject) == b
}

/// Visible meshes among `es`.
pub open spec fn visible_count(es: Seq<CensusMesh>) -> nat
    decreases es.len(),
{
    if es.len() == 0 {
        0
    } else {
        visible_count(es.drop_last()) + if es.last().visible {
            1nat
        } else {
            0nat
        }
    }
}

/// Visible meshes of bucket `b` among `es`.
pub open spec fn bucket_meshes(es: Seq<CensusMesh>, b: int) -> nat
    decreases es.len(),
{
    if es.len() == 0 {
        0
    } else {
        bucket_meshes(es.drop_last(), b) + if counted_in(es.last(), b) {
            1nat
        } else {
            0nat
        }
    }
}

/// Triangles of the visible meshes of bucket `b` among `es`.
pub open spec fn bucket_triangles(es: Seq<CensusMesh>, b: int) -> nat
    decreases es.len(),
{
    if es.len() == 0 {
        0
    } else {
        bucket_triangles(es.drop_last(), b) + if counted_in(es.last(), b) {
            entry_triangles(es.last())
        } else {
            0nat
        }
    }
}

/// Triangles of the visible meshes among `es`.
pub open spec fn visible_triangles(es: Seq<CensusMesh>) -> nat
    decreases es.len(),
{
    if es.len() == 0 {
        0
    } else {
        visible_triangles(es.drop_last()) + if es.last().visible {
            entry_triangles(es.last())
        } else {
            0nat
        }
    }
}

/// The `(mesh, material)` pairs of the visible meshes of bucket `b` among `es`.
pub open spec fn bucket_pairs(es: Seq<CensusMesh>, b: int) -> Set<(u64, u64)>
    decreases es.len(),
{
    if es.len() == 0 {
        Set::empty()
    } else if counted_in(es.last(), b) {
        bucket_pairs(es.drop_last(), b).insert((es.last().mesh, es.last().material))
    } else {
        bucket_pairs(es.drop_last(), b)
    }
}

/// The `(mesh, material)` pairs of the visible meshes among `es`.
pub open spec fn visible_pairs(es: Seq<CensusMesh>) -> Set<(u64, u64)>
    decreases es.len(),
{
    if es.len() == 0 {
        Set::empty()
    } else if es.last().visible {
        visible_pairs(es.drop_last()).insert((es.last().mesh, es.last().material))
    } else {
        visible_pairs(es.drop_last())
    }
}

/// The materials of the visible meshes among `es`.
pub open spec fn visible_materials(es: Seq<CensusMesh>) -> Set<u64>
    decreases es.len(),
{
    if es.len() == 0 {
        Set::empty()
    } else if es.last().visible {
        visible_materials(es.drop_last()).insert(es.last().material)
    } else {
        visible_materials(es.drop_last())
    }
}

/// Counts over a prefix never exceed those over the whole.
proof fn lemma_prefix_counts(es: Seq<CensusMesh>, i: int, b: int)
    requires
        0 <= i <= es.len(),
    ensures
        visible_count(es.take(i)) <= visible_count(es),
        bucket_triangles(es.take(i), b) <= bucket_triangles(es, b),
    decreases es.len() - i,
{
    if i < es.len() {
        lemma_prefix_counts(es, i + 1, b);
        assert(es.take(i + 1).drop_last() =~= es.take(i));
    } else {
        assert(es.take(i) =~= es);
    }
}

/// The frame's count, while it is being taken.
pub struct SceneCensus {
    accounted_meshes: u32,
    subjects: Vec<SubjectTally>,
    batches: Vec<(u64, u64)>,
    subject_batches: Vec<Vec<(u64, u64)>>,
    materials: Vec<u64>,
}

impl Default for SceneCensus {
    /// An empty census.
    fn default() -> (census: SceneCensus)
        ensures
            census.wf(),
            census.accounted() == 0,
            census.running() == seq![SubjectTally { meshes: 0, triangles: 0, draws: 0 }; 4],
            census.batch_set() == Set::<(u64, u64)>::empty(),
            census.material_set() == Set::<u64>::empty(),
            forall|b: int| 0 <= b < BUCKETS ==> census.bucket_batch_set(b) == Set::<(u64, u64)>::empty(),
    {
        SceneCensus::new()
    }
}

impl SceneCensus {
    /// Visible meshes whose material is registered.
    pub closed spec fn accounted(&self) -> nat {
        self.accounted_meshes as nat
    }

    /// The running tallies, one per bucket (draws not yet closed).
    pub closed spec fn running(&self) -> Seq<SubjectTally> {
        self.subjects@
    }

    /// The distinct `(mesh, material)` pairs seen.
    pub closed spec fn batch_set(&self) -> Set<(u64, u64)> {
        self.batches@.to_set()
    }

    /// The distinct `(mesh, material)` pairs seen in bucket `b`.
    pub closed spec fn bucket_batch_set(&self, b: int) -> Set<(u64, u64)> {
        self.subject_batches@[b]@.to_set()
    }

    /// The distinct materials seen.
    pub closed spec fn material_set(&self) -> Set<u64> {
        self.materials@.to_set()
    }

    /// The census is consistent: four buckets, duplicate-free sets, and the
    /// buckets add up to what was counted.
    pub closed spec fn wf(&self) -> bool {
        &&& self.subjects@.len() == BUCKETS
        &&& self.subject_batches@.len() == BUCKETS
        &&& self.batches@.no_duplicates()
        &&& self.materials@.no_duplicates()
        &&& forall|b: int| 0 <= b < BUCKETS ==> (#[trigger] self.subject_batches@[b])@.no_duplicates()
        &&& sum_meshes(self.subjects@) == self.accounted_meshes
    }

    /// An empty census.
    pub fn new() -> (census: SceneCensus)
        ensures
            census.wf(),
            census.accounted() == 0,
            census.running() == seq![SubjectTally { meshes: 0, triangles: 0, draws: 0 }; 4],
            census.batch_set() == Set::<(u64, u64)>::empty(),
            census.material_set() == Set::<u64>::empty(),
            forall|b: int| 0 <= b < BUCKETS ==> census.bucket_batch_set(b) == Set::<(u64, u64)>::empty(),
    {
        let zero = SubjectTally { meshes: 0, triangles: 0, draws: 0 };
        let census = SceneCensus {
            accounted_meshes: 0,
            subjects: vec![zero, zero, zero, zero],
            batches: Vec::new(),
            subject_batches: vec![Vec::new(), Vec::new(), Vec::new(), Vec::new()],
            materials: Vec::new(),
        };
        proof {
            broadcast use {vstd::seq_lib::group_seq_properties, vstd::set::group_set_axioms};
            assert(census.subjects@ =~= seq![zero; 4]);
            reveal_with_fuel(sum_meshes, 5);
            assert(census.subjects@.drop_last().drop_last().drop_last().drop_last() =~= Seq::<SubjectTally>::empty());
            assert(census.batches@.to_set() =~= Set::<(u64, u64)>::empty());
            assert(census.materials@.to_set() =~= Set::<u64>::empty());
            assert forall|b: int| 0 <= b < BUCKETS implies census.bucket_batch_set(b) == Set::<(u64, u64)>::empty() by {
                assert(census.subject_batches@[b]@ =~= Seq::<(u64, u64)>::empty());
                assert(census.subject_batches@[b]@.to_set() =~= Set::<(u64, u64)>::empty());
            }
        }
        census
    }

    /// Leaves the census as if newly born, so one frame's count never drags the
    /// previous one along.
    pub fn clear(&mut self)
        ensures
            final(self).wf(),
            final(self).accounted() == 0,
            final(self).running() == seq![SubjectTally { meshes: 0, triangles: 0, draws: 0 }; 4],
            final(self).batch_set() == Set::<(u64, u64)>::empty(),
            final(self).material_set() == Set::<u64>::empty(),
            forall|b: int| 0 <= b < BUCKETS ==> final(self).bucket_batch_set(b) == Set::<(u64, u64)>::empty(),
    {
        *self = SceneCensus::new();
    }

    /// Counts one visible mesh of `triangles` triangles, drawn with `material`,
    /// in the bucket of `subject`.
    pub fn record(&mut self, subject: Option<Subject>, mesh: u64, material: u64, triangles: usize)
        requires
            old(self).wf(),
            old(self).accounted() < u32::MAX,
            old(self).running()[spec_bucket(subject)].triangles + triangles <= usize::MAX,
        ensures
            final(self).wf(),
            final(self).accounted() == old(self).accounted() + 1,
            final(self).running() == old(self).running().update(
                spec_bucket(subject),
                SubjectTally {
                    meshes: (old(self).running()[spec_bucket(subject)].meshes + 1) as u32,
                    triangles: (old(self).running()[spec_bucket(subject)].triangles
                        + triangles) as usize,
                    draws: old(self).running()[spec_bucket(subject)].draws,
                },
            ),
            sum_triangles(final(self).running()) == sum_triangles(old(self).running()) + triangles,
            final(self).batch_set() == old(self).batch_set().insert((mesh, material)),
            final(self).material_set() == old(self).material_set().insert(material),
            forall|b: int|
                0 <= b < BUCKETS ==> #[trigger] final(self).bucket_batch_set(b) == if b
                    == spec_bucket(subject) {
                    old(self).bucket_batch_set(b).insert((mesh, material))
                } else {
                    old(self).bucket_batch_set(b)
                },
    {
        let bucket = match subject {
            Some(s) => s.index(),
            None => OTHER,
        };
        let ghost old_subjects = self.subjects@;
        let ghost old_sb = self.subject_batches@;
        proof {
            lemma_sum_bounds(self.subjects@, bucket as int);
        }
        self.accounted_meshes = self.accounted_meshes + 1;
        insert_unique_pair(&mut self.batches, (mesh, material));
        insert_unique_id(&mut self.materials, material);
        let mut set: Vec<(u64, u64)> = Vec::new();
        self.subject_batches.set_and_swap(bucket, &mut set);
        insert_unique_pair(&mut set, (mesh, material));
        self.subject_batches.set(bucket, set);
        let old_tally = self.subjects[bucket];
        let tally = SubjectTally {
            meshes: old_tally.meshes + 1,
            triangles: old_tally.triangles + triangles,
            draws: old_tally.draws,
        };
        self.subjects.set(bucket, tally);
        proof {
            lemma_sums_after_update(old_subjects, bucket as int, tally);
            assert forall|b: int| 0 <= b < BUCKETS implies (#[trigger] self.subject_batches@[b])@.no_duplicates() by {
                if b != bucket {
                    assert(self.subject_batches@[b] == old_sb[b]);
                }
            }
        }
    }

    /// Counts every visible mesh of one instrumented material: a mesh culled
    /// by frustum, hierarchy or range is not sent and is skipped, and one whose
    /// asset has not loaded counts no triangles.
    pub fn count_visible(&mut self, meshes: &[CensusMesh])
        requires
            old(self).wf(),
            old(self).accounted() + visible_count(meshes@) <= u32::MAX,
            forall|b: int|
                0 <= b < BUCKETS ==> old(self).running()[b].triangles + bucket_triangles(
                    meshes@,
                    b,
                ) <= usize::MAX,
        ensures
            final(self).wf(),
            final(self).accounted() == old(self).accounted() + visible_count(meshes@),
            forall|b: int|
                0 <= b < BUCKETS ==> {
                    &&& (#[trigger] final(self).running()[b]).meshes == old(self).running()[b].meshes
                        + bucket_meshes(meshes@, b)
                    &&& final(self).running()[b].triangles == old(self).running()[b].triangles
                        + bucket_triangles(meshes@, b)
                    &&& final(self).running()[b].draws == old(self).running()[b].draws
                    &&& final(self).bucket_batch_set(b) == old(self).bucket_batch_set(b).union(
                        bucket_pairs(meshes@, b),
                    )
                },
            sum_triangles(final(self).running()) == sum_triangles(old(self).running())
                + visible_triangles(meshes@),
            final(self).batch_set() == old(self).batch_set().union(visible_pairs(meshes@)),
            final(self).material_set() == old(self).material_set().union(
                visible_materials(meshes@),
            ),
    {
        let ghost start = *self;
        let ghost es = meshes@;
        let mut i: usize = 0;
        proof {
            assert(es.take(0) =~= Seq::<CensusMesh>::empty());
            assert forall|b: int| 0 <= b < BUCKETS implies start.bucket_batch_set(b).union(
                bucket_pairs(es.take(0), b),
            ) == start.bucket_batch_set(b) by {
                assert(start.bucket_batch_set(b).union(Set::empty()) =~= start.bucket_batch_set(b));
            }
            assert(start.batch_set().union(Set::empty()) =~= start.batch_set());
            assert(start.material_set().union(Set::empty()) =~= start.material_set());
        }
        while i < meshes.len()
            invariant
                i <= meshes.len(),
                es == meshes@,
                start.wf(),
                start.accounted() + visible_count(es) <= u32::MAX,
                forall|b: int|
                    0 <= b < BUCKETS ==> start.running()[b].triangles + bucket_triangles(es, b)
                        <= usize::MAX,
                self.wf(),
                self.running().len() == BUCKETS,
                self.accounted() == start.accounted() + visible_count(es.take(i as int)),
                forall|b: int|
                    0 <= b < BUCKETS ==> {
                        &&& (#[trigger] self.running()[b]).meshes == start.running()[b].meshes
                            + bucket_meshes(es.take(i as int), b)
                        &&& self.running()[b].triangles == start.running()[b].triangles
                            + bucket_triangles(es.take(i as int), b)
                        &&& self.running()[b].draws == start.running()[b].draws
                        &&& self.bucket_batch_set(b) == start.bucket_batch_set(b).union(
                            bucket_pairs(es.take(i as int), b),
                        )
                    },
                sum_triangles(self.running()) == sum_triangles(start.running()) + visible_triangles(
                    es.take(i as int),
                ),
                self.batch_set() == start.batch_set().union(visible_pairs(es.take(i as int))),
                self.material_set() == start.material_set().union(
                    visible_materials(es.take(i as int)),
                ),
            decreases meshes.len() - i,
        {
            let e = meshes[i];
            let ghost before = *self;
            let ghost next = es.take(i + 1);
            proof {
                assert(next.drop_last() =~= es.take(i as int));
                assert(next.last() == e);
                lemma_prefix_counts(es, i + 1, spec_bucket(e.subject));
            }
            if e.visible {
                let triangles = match e.counts {
                    None => 0,
                    Some(c) => mesh_triangles(c.index_count, c.vertex_count),
                };
                proof {
                    lemma_sum_bounds(self.running(), spec_bucket(e.subject));
                }
                self.record(e.subject, e.mesh, e.material, triangles);
                proof {
                    assert forall|b: int| 0 <= b < BUCKETS implies {
                        &&& (#[trigger] self.running()[b]).meshes == start.running()[b].meshes
                            + bucket_meshes(next, b)
                        &&& self.running()[b].triangles == start.running()[b].triangles
                            + bucket_triangles(next, b)
                        &&& self.running()[b].draws == start.running()[b].draws
                        &&& self.bucket_batch_set(b) == start.bucket_batch_set(b).union(
                            bucket_pairs(next, b),
                        )
                    } by {
                        let _ = before.running()[b];
                        assert(before.bucket_batch_set(b) == start.bucket_batch_set(b).union(
                            bucket_pairs(es.take(i as int), b)));
                        if b == spec_bucket(e.subject) {
                            assert(start.bucket_batch_set(b).union(bucket_pairs(next, b))
                                =~= start.bucket_batch_set(b).union(
                                bucket_pairs(es.take(i as int), b),
                            ).insert((e.mesh, e.material)));
                        }
                    }
                    assert(start.batch_set().union(visible_pairs(next)) =~= start.batch_set().union(
                        visible_pairs(es.take(i as int)),
                    ).insert((e.mesh, e.material)));
                    assert(start.material_set().union(visible_materials(next))
                        =~= start.material_set().union(visible_materials(es.take(i as int))).insert(
                        e.material,
                    ));
                }
            } else {
                proof {
                    assert forall|b: int| 0 <= b < BUCKETS implies {
                        &&& (#[trigger] self.running()[b]).meshes == start.running()[b].meshes
                            + bucket_meshes(next, b)
                        &&& self.running()[b].triangles == start.running()[b].triangles
                            + bucket_triangles(next, b)
                        &&& self.running()[b].draws == start.running()[b].draws
                        &&& self.bucket_batch_set(b) == start.bucket_batch_set(b).union(
                            bucket_pairs(next, b),
                        )
                    } by {}
                }
            }
            i = i + 1;
        }
        assert(es.take(meshes.len() as int) =~= es);
    }

    /// The tallies with their draws closed: a draw is the cardinality of a
    /// set, not an accumulator, so it is computed here.
    pub fn tallies(&self) -> (tallies: [SubjectTally; 4])
        requires
            self.wf(),
        ensures
            forall|b: int|
                0 <= b < BUCKETS ==> #[trigger] tallies@[b] == (SubjectTally {
                    meshes: self.running()[b].meshes,
                    triangles: self.running()[b].triangles,
                    draws: self.bucket_batch_set(b).len() as usize,
                }),
    {
        let mut out: [SubjectTally; 4] = [
            self.subjects[0],
            self.subjects[1],
            self.subjects[2],
            self.subjects[3],
        ];
        let mut bucket: usize = 0;
        while bucket < BUCKETS
            invariant
                self.wf(),
                bucket <= BUCKETS,
                forall|b: int|
                    0 <= b < BUCKETS ==> #[trigger] out@[b] == if b < bucket {
                        SubjectTally {
                            meshes: self.running()[b].meshes,
                            triangles: self.running()[b].triangles,
                            draws: self.bucket_batch_set(b).len() as usize,
                        }
                    } else {
                        self.running()[b]
                    },
            decreases BUCKETS - bucket,
        {
            let draws = self.subject_batches[bucket].len();
            proof {
                self.subject_batches@[bucket as int]@.unique_seq_to_set();
            }
            let t = self.subjects[bucket];
            out[bucket] = SubjectTally { meshes: t.meshes, triangles: t.triangles, draws };
            bucket = bucket + 1;
        }
        out
    }

    /// Visible meshes with a registered material.
    pub fn accounted_meshes(&self) -> (meshes: u32)
        ensures
            meshes == self.accounted(),
    {
        self.accounted_meshes
    }

    /// Distinct `(mesh, material)` pairs: the draws of the frame.
    pub fn draws(&self) -> (draws: usize)
        requires
            self.wf(),
        ensures
            draws == self.batch_set().len(),
    {
        proof {
            self.batches@.unique_seq_to_set();
        }
        self.batches.len()
    }

    /// Distinct materials of the frame.
    pub fn materials(&self) -> (materials: usize)
        requires
            self.wf(),
        ensures
            materials == self.material_set().len(),
    {
        proof {
            self.materials@.unique_seq_to_set();
        }
        self.materials.len()
    }
}

proof fn lemma_sum_nonneg(t: Seq<SubjectTally>)
    ensures
        0 <= sum_meshes(t),
    decreases t.len(),
{
    if t.len() > 0 {
        lemma_sum_nonneg(t.drop_last());
    }
}

proof fn lemma_sum_bounds(t: Seq<SubjectTally>, b: int)
    requires
        0 <= b < t.len(),
    ensures
        t[b].meshes <= sum_meshes(t),
        0 <= sum_meshes(t),
    decreases t.len(),
{
    lemma_sum_nonneg(t);
    if b < t.len() - 1 {
        lemma_sum_bounds(t.drop_last(), b);
        assert(t.drop_last()[b] == t[b]);
    } else {
        lemma_sum_nonneg(t.drop_last());
    }
}

/// The buckets share out the total without losing or duplicating a mesh: the
/// mesh counts of the buckets add up to the meshes counted.
pub proof fn the_buckets_add_up_to_what_was_counted(census: SceneCensus)
    requires
        census.wf(),
    ensures
        sum_meshes(census.running()) == census.accounted(),
{
    reveal(SceneCensus::wf);
}

/// Two entities sharing a mesh and a material batch together and are one draw:
/// counting the pair again does not add a draw.
pub proof fn sharing_a_mesh_and_a_material_is_one_draw_not_two(
    draws: Set<(u64, u64)>,
    mesh: u64,
    material: u64,
)
    requires
        draws.contains((mesh, material)),
    ensures
        draws.insert((mesh, material)) == draws,
{
    assert(draws.insert((mesh, material)) =~= draws);
}

/// The split loses and duplicates nothing over a whole frame of meshes: the
/// buckets' mesh counts add up to the visible meshes, their triangles to the
/// visible triangles, and their batches make up the frame's batches.
pub proof fn every_visible_mesh_lands_in_exactly_one_bucket(es: Seq<CensusMesh>)
    ensures
        bucket_meshes(es, 0) + bucket_meshes(es, 1) + bucket_meshes(es, 2) + bucket_meshes(es, 3)
            == visible_count(es),
        bucket_triangles(es, 0) + bucket_triangles(es, 1) + bucket_triangles(es, 2)
            + bucket_triangles(es, 3) == visible_triangles(es),
        bucket_pairs(es, 0).union(bucket_pairs(es, 1)).union(bucket_pairs(es, 2)).union(
            bucket_pairs(es, 3),
        ) == visible_pairs(es),
    decreases es.len(),
{
    if es.len() == 0 {
        assert(Set::<(u64, u64)>::empty().union(Set::empty()).union(Set::empty()).union(
            Set::empty(),
        ) =~= Set::<(u64, u64)>::empty());
    } else {
        let rest = es.drop_last();
        every_visible_mesh_lands_in_exactly_one_bucket(rest);
        let e = es.last();
        let p = (e.mesh, e.material);
        let u = bucket_pairs(rest, 0).union(bucket_pairs(rest, 1)).union(bucket_pairs(rest, 2)).union(
            bucket_pairs(rest, 3),
        );
        if e.visible {
            let b = spec_bucket(e.subject);
            assert(0 <= b < 4);
            assert(bucket_pairs(es, 0).union(bucket_pairs(es, 1)).union(bucket_pairs(es, 2)).union(
                bucket_pairs(es, 3),
            ) =~= u.insert(p));
        } else {
            assert(bucket_pairs(es, 0).union(bucket_pairs(es, 1)).union(bucket_pairs(es, 2)).union(
                bucket_pairs(es, 3),
            ) =~= u);
        }
    }
}

} // verus!
