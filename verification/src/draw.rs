//! Draw passes: which meshes a pass draws, in which order, and through which pipelines.
//!
//! Distances and radii are measured by the caller and handed over as bit patterns; the passes order
//! by them.

use crate::f32bits;
use crate::mesh::GpuMesh;
use crate::pipeline::{MeshRenderer, PipelineId};
use crate::sort;
use crate::words::Vec3;
use vstd::prelude::*;

verus! {

/// Which transparent pipeline family a list belongs to.
#[derive(Clone, Copy, Debug, PartialEq, Eq, Structural)]
pub enum TransparentKind {
    /// alpha-blend family, routed per mesh by its blend mode (glass, multiply overlays)
    Blend,
    /// additive glow (holograms, force fields)
    Additive,
    /// alpha-blended solid markers
    HoloSolid,
}

/// One draw: a mesh of a list, and the range of its instances.
#[derive(Clone, Copy, Debug, PartialEq, Eq, Structural)]
pub struct Draw {
    pub pipeline: PipelineId,
    pub list: usize,
    pub mesh: usize,
    pub first: u32,
    pub count: u32,
}

/// All instances of a mesh.
pub open spec fn whole(m: GpuMesh, pipeline: PipelineId, list: int, mesh: int) -> Draw {
    Draw {
        pipeline,
        list: list as usize,
        mesh: mesh as usize,
        first: 0,
        count: m.instance_count,
    }
}

// ---- unsorted passes --------------------------------------------------------------------------
/// Which meshes of a list a pass takes.
#[derive(Clone, Copy, Debug, PartialEq, Eq, Structural)]
pub enum Pick {
    All,
    Terrain,
    NotTerrain,
    /// Meshes that cast shadows.
    Casters,
    /// Meshes that cast shadows and are flagged as casters of a static list.
    FlaggedCasters,
}

pub open spec fn picks(p: Pick, m: GpuMesh) -> bool {
    match p {
        Pick::All => true,
        Pick::Terrain => m.is_terrain,
        Pick::NotTerrain => !m.is_terrain,
        Pick::Casters => m.casts_shadow,
        Pick::FlaggedCasters => m.casts_shadow && m.h4_caster,
    }
}

/// The draws of the first `n` meshes of a list, in list order.
pub open spec fn draws_of(
    meshes: Seq<&GpuMesh>,
    pipeline: PipelineId,
    pick: Pick,
    list: int,
    n: int,
) -> Seq<Draw>
    decreases n,
{
    if n <= 0 {
        Seq::empty()
    } else {
        let before = draws_of(meshes, pipeline, pick, list, n - 1);
        if picks(pick, *meshes[n - 1]) {
            before.push(whole(*meshes[n - 1], pipeline, list, n - 1))
        } else {
            before
        }
    }
}

/// A mesh is drawn by a pass exactly when the pass takes it, and then once.
pub proof fn law_each_picked_mesh_is_drawn_once(
    meshes: Seq<&GpuMesh>,
    pipeline: PipelineId,
    pick: Pick,
    list: int,
    n: int,
    i: int,
)
    requires
        0 <= i < n <= meshes.len() <= usize::MAX,
    ensures
        draws_of(meshes, pipeline, pick, list, n).filter(|d: Draw| d.mesh == i).len() == if picks(
            pick,
            *meshes[i],
        ) {
            1int
        } else {
            0int
        },
{
    lemma_draw_count(meshes, pipeline, pick, list, n, i);
}

proof fn lemma_draw_count(
    meshes: Seq<&GpuMesh>,
    pipeline: PipelineId,
    pick: Pick,
    list: int,
    n: int,
    i: int,
)
    requires
        0 <= i < meshes.len(),
        0 <= n <= meshes.len() <= usize::MAX,
    ensures
        draws_of(meshes, pipeline, pick, list, n).filter(|d: Draw| d.mesh == i).len() == if i < n
            && picks(pick, *meshes[i]) {
            1int
        } else {
            0int
        },
    decreases n,
{
    reveal(Seq::filter);
    let of_mesh = |d: Draw| d.mesh == i;
    if n > 0 {
        lemma_draw_count(meshes, pipeline, pick, list, n - 1, i);
        let before = draws_of(meshes, pipeline, pick, list, n - 1);
        let all = draws_of(meshes, pipeline, pick, list, n);
        if picks(pick, *meshes[n - 1]) {
            assert(all.drop_last() =~= before);
        }
    }
}

fn is_picked(p: Pick, m: &GpuMesh) -> (r: bool)
    ensures
        r == picks(p, *m),
{
    match p {
        Pick::All => true,
        Pick::Terrain => m.is_terrain,
        Pick::NotTerrain => !m.is_terrain,
        Pick::Casters => m.casts_shadow,
        Pick::FlaggedCasters => m.casts_shadow && m.h4_caster,
    }
}

fn append_draws(
    out: &mut Vec<Draw>,
    meshes: &Vec<&GpuMesh>,
    pipeline: PipelineId,
    pick: Pick,
    list: usize,
)
    ensures
        final(out)@ == old(out)@ + draws_of(
            meshes@,
            pipeline,
            pick,
            list as int,
            meshes@.len() as int,
        ),
{
    let ghost start = out@;
    let mut i: usize = 0;
    assert(out@ =~= start + draws_of(meshes@, pipeline, pick, list as int, 0));
    while i < meshes.len()
        invariant
            i <= meshes@.len(),
            out@ == start + draws_of(meshes@, pipeline, pick, list as int, i as int),
        decreases meshes@.len() - i,
    {
        let m: &GpuMesh = meshes[i];
        if is_picked(pick, m) {
            out.push(Draw { pipeline, list, mesh: i, first: 0, count: m.instance_count });
            assert(out@ =~= start + draws_of(meshes@, pipeline, pick, list as int, i + 1));
        }
        i = i + 1;
    }
}

/// The draws of the first `n` lists, one list behind the other; the lists are numbered from `base`.
pub open spec fn lists_draws(
    lists: Seq<Vec<&GpuMesh>>,
    pipeline: PipelineId,
    pick: Pick,
    base: int,
    n: int,
) -> Seq<Draw>
    decreases n,
{
    if n <= 0 {
        Seq::empty()
    } else {
        lists_draws(lists, pipeline, pick, base, n - 1) + draws_of(
            lists[n - 1]@,
            pipeline,
            pick,
            base + n - 1,
            lists[n - 1]@.len() as int,
        )
    }
}

fn append_lists(
    out: &mut Vec<Draw>,
    lists: &Vec<Vec<&GpuMesh>>,
    pipeline: PipelineId,
    pick: Pick,
    base: usize,
)
    requires
        base + lists@.len() <= usize::MAX,
    ensures
        final(out)@ == old(out)@ + lists_draws(
            lists@,
            pipeline,
            pick,
            base as int,
            lists@.len() as int,
        ),
{
    let ghost start = out@;
    let mut i: usize = 0;
    assert(out@ =~= start + lists_draws(lists@, pipeline, pick, base as int, 0));
    while i < lists.len()
        invariant
            i <= lists@.len(),
            base + lists@.len() <= usize::MAX,
            out@ == start + lists_draws(lists@, pipeline, pick, base as int, i as int),
        decreases lists@.len() - i,
    {
        append_draws(out, &lists[i], pipeline, pick, base + i);
        i = i + 1;
        assert(out@ =~= start + lists_draws(lists@, pipeline, pick, base as int, i as int));
    }
}

// ---- order ------------------------------------------------------------------------------------
/// Sort keys that put small numbers first.
pub open spec fn near_keys(d: Seq<u32>) -> Seq<u64> {
    Seq::new(d.len(), |i: int| f32bits::order_key_of(d[i]) as u64)
}

/// Sort keys that put large numbers first.
pub open spec fn far_keys(d: Seq<u32>) -> Seq<u64> {
    Seq::new(d.len(), |i: int| (0xffff_ffff - f32bits::order_key_of(d[i])) as u64)
}

/// Sort keys of the sky: opaque segments (blend 0) first, then by radius, large ones first.
pub open spec fn sky_keys(blends: Seq<u8>, radii: Seq<u32>) -> Seq<u64> {
    Seq::new(
        radii.len(),
        |i: int|
            ((if blends[i] == 0 {
                0int
            } else {
                0x1_0000_0000int
            }) + (0xffff_ffff - f32bits::order_key_of(radii[i]))) as u64,
    )
}

/// Sort keys of the decals: their buckets.
pub open spec fn bucket_keys(buckets: Seq<u8>) -> Seq<u64> {
    Seq::new(buckets.len(), |i: int| buckets[i] as u64)
}

/// Back to front: nothing that is drawn is farther away than what was drawn before it.
pub proof fn law_far_to_near(d: Seq<u32>, order: Seq<usize>, i: int, j: int)
    requires
        sort::is_stable_order(far_keys(d), order),
        0 <= i < j < order.len(),
        !f32bits::is_nan(d[order[i] as int]),
        !f32bits::is_nan(d[order[j] as int]),
    ensures
        !f32bits::f32_less(d[order[i] as int], d[order[j] as int]),
        f32bits::f32_units(d[order[i] as int]) == f32bits::f32_units(d[order[j] as int])
            ==> order[i] < order[j],
{
    let (a, b) = (order[i], order[j]);
    assert(sort::comes_before(far_keys(d), a, b));
    f32bits::law_order_key_follows_value(d[a as int], d[b as int]);
}

/// Front to back: nothing that is drawn is nearer than what was drawn before it.
pub proof fn law_near_to_far(d: Seq<u32>, order: Seq<usize>, i: int, j: int)
    requires
        sort::is_stable_order(near_keys(d), order),
        0 <= i < j < order.len(),
        !f32bits::is_nan(d[order[i] as int]),
        !f32bits::is_nan(d[order[j] as int]),
    ensures
        !f32bits::f32_less(d[order[j] as int], d[order[i] as int]),
        f32bits::f32_units(d[order[i] as int]) == f32bits::f32_units(d[order[j] as int])
            ==> order[i] < order[j],
{
    let (a, b) = (order[i], order[j]);
    assert(sort::comes_before(near_keys(d), a, b));
    f32bits::law_order_key_follows_value(d[b as int], d[a as int]);
}

/// The sky: opaque segments come before all others, and within either group large radii before
/// small ones, equal ones in authored order.
pub proof fn law_sky_order(blends: Seq<u8>, radii: Seq<u32>, order: Seq<usize>, i: int, j: int)
    requires
        blends.len() == radii.len(),
        sort::is_stable_order(sky_keys(blends, radii), order),
        0 <= i < j < order.len(),
        !f32bits::is_nan(radii[order[i] as int]),
        !f32bits::is_nan(radii[order[j] as int]),
    ensures
        blends[order[j] as int] == 0 ==> blends[order[i] as int] == 0,
        (blends[order[i] as int] == 0 <==> blends[order[j] as int] == 0) ==> !f32bits::f32_less(
            radii[order[i] as int],
            radii[order[j] as int],
        ),
        (blends[order[i] as int] == 0 <==> blends[order[j] as int] == 0) && f32bits::f32_units(
            radii[order[i] as int],
        ) == f32bits::f32_units(radii[order[j] as int]) ==> order[i] < order[j],
{
    let (a, b) = (order[i], order[j]);
    assert(sort::comes_before(sky_keys(blends, radii), a, b));
    f32bits::law_order_key_follows_value(radii[a as int], radii[b as int]);
}

/// Decals: buckets never decrease, and keep the submission order within.
pub proof fn law_decal_order(buckets: Seq<u8>, order: Seq<usize>, i: int, j: int)
    requires
        sort::is_stable_order(bucket_keys(buckets), order),
        0 <= i < j < order.len(),
    ensures
        buckets[order[i] as int] <= buckets[order[j] as int],
        buckets[order[i] as int] == buckets[order[j] as int] ==> order[i] < order[j],
{
    assert(sort::comes_before(bucket_keys(buckets), order[i], order[j]));
}

fn near_first(d: &Vec<u32>) -> (order: Vec<usize>)
    ensures
        sort::is_stable_order(near_keys(d@), order@),
{
    let mut keys: Vec<u64> = Vec::new();
    let mut i: usize = 0;
    while i < d.len()
        invariant
            i <= d@.len(),
            keys@ == near_keys(d@).take(i as int),
        decreases d@.len() - i,
    {
        keys.push(f32bits::order_key(d[i]) as u64);
        i = i + 1;
        assert(keys@ =~= near_keys(d@).take(i as int));
    }
    assert(keys@ =~= near_keys(d@));
    sort::stable_order(&keys)
}

fn far_first(d: &Vec<u32>) -> (order: Vec<usize>)
    ensures
        sort::is_stable_order(far_keys(d@), order@),
{
    let mut keys: Vec<u64> = Vec::new();
    let mut i: usize = 0;
    while i < d.len()
        invariant
            i <= d@.len(),
            keys@ == far_keys(d@).take(i as int),
        decreases d@.len() - i,
    {
        keys.push(0xffff_ffff - f32bits::order_key(d[i]) as u64);
        i = i + 1;
        assert(keys@ =~= far_keys(d@).take(i as int));
    }
    assert(keys@ =~= far_keys(d@));
    sort::stable_order(&keys)
}

// ---- routing ----------------------------------------------------------------------------------
/// The particle pipeline of a blend mode: 4 additive, 1 premultiplied, 2 multiply, else straight
/// alpha.
pub open spec fn particle_route(mode: u8) -> PipelineId {
    if mode == 4 {
        PipelineId::ParticleAdd
    } else if mode == 1 {
        PipelineId::ParticlePremul
    } else if mode == 2 {
        PipelineId::ParticleMultiply
    } else {
        PipelineId::ParticleAlpha
    }
}

/// The pipeline of a transparent mesh: the family of its list, and within the blend family its
/// mode.
pub open spec fn transparent_route(kind: TransparentKind, mode: u8) -> PipelineId {
    match kind {
        TransparentKind::HoloSolid => PipelineId::HoloSolid,
        TransparentKind::Additive => PipelineId::Additive,
        TransparentKind::Blend => if mode == 1 {
            PipelineId::BlendPremul
        } else if mode == 2 {
            PipelineId::BlendMultiply
        } else if mode == 3 {
            PipelineId::BlendDoubleMultiply
        } else {
            PipelineId::Blend
        },
    }
}

/// The sky pipeline of a blend value: 1, 5, 7 and 9 additive, 2 and 3 multiply, 4 alpha, 6 and 8
/// premultiplied (alpha with the legacy sky), else opaque.
pub open spec fn sky_route(blend: u8, legacy: bool) -> PipelineId {
    if blend == 1 || blend == 5 || blend == 7 || blend == 9 {
        PipelineId::SkyBlend
    } else if blend == 2 || blend == 3 {
        PipelineId::SkyMultiply
    } else if blend == 4 || ((blend == 6 || blend == 8) && legacy) {
        PipelineId::SkyAlpha
    } else if blend == 6 || blend == 8 {
        PipelineId::SkyPremul
    } else {
        PipelineId::SkyOpaque
    }
}

/// The decal pipeline of a bucket.
pub open spec fn decal_route(bucket: u8) -> PipelineId {
    if bucket == 1 {
        PipelineId::DecalAdditive
    } else if bucket == 2 {
        PipelineId::DecalMultiply
    } else if bucket == 3 {
        PipelineId::DecalPremul
    } else if bucket == 4 {
        PipelineId::DecalInvAlpha
    } else if bucket == 5 {
        PipelineId::DecalVector
    } else if bucket == 6 {
        PipelineId::DecalDoubleMultiply
    } else {
        PipelineId::DecalAlpha
    }
}

/// Everything a transparent pass draws leaves the depth buffer alone, so that the draw order alone
/// decides the result.
pub proof fn law_transparent_passes_keep_depth(kind: TransparentKind, mode: u8, legacy_sky: bool)
    ensures
        !crate::pipeline::writes_depth(transparent_route(kind, mode), legacy_sky),
        !crate::pipeline::writes_depth(particle_route(mode), legacy_sky),
        !crate::pipeline::writes_depth(decal_route(mode), legacy_sky),
{
}

fn route_particle(mode: u8) -> (p: PipelineId)
    ensures
        p == particle_route(mode),
{
    match mode {
        4 => PipelineId::ParticleAdd,
        1 => PipelineId::ParticlePremul,
        2 => PipelineId::ParticleMultiply,
        _ => PipelineId::ParticleAlpha,
    }
}

fn route_transparent(kind: TransparentKind, mode: u8) -> (p: PipelineId)
    ensures
        p == transparent_route(kind, mode),
{
    match kind {
        TransparentKind::HoloSolid => PipelineId::HoloSolid,
        TransparentKind::Additive => PipelineId::Additive,
        TransparentKind::Blend => match mode {
            1 => PipelineId::BlendPremul,
            2 => PipelineId::BlendMultiply,
            3 => PipelineId::BlendDoubleMultiply,
            _ => PipelineId::Blend,
        },
    }
}

fn route_sky(blend: u8, legacy: bool) -> (p: PipelineId)
    ensures
        p == sky_route(blend, legacy),
{
    match blend {
        1 | 5 | 7 | 9 => PipelineId::SkyBlend,
        2 | 3 => PipelineId::SkyMultiply,
        4 => PipelineId::SkyAlpha,
        6 | 8 => if legacy {
            PipelineId::SkyAlpha
        } else {
            PipelineId::SkyPremul
        },
        _ => PipelineId::SkyOpaque,
    }
}

fn route_decal(bucket: u8) -> (p: PipelineId)
    ensures
        p == decal_route(bucket),
{
    match bucket {
        1 => PipelineId::DecalAdditive,
        2 => PipelineId::DecalMultiply,
        3 => PipelineId::DecalPremul,
        4 => PipelineId::DecalInvAlpha,
        5 => PipelineId::DecalVector,
        6 => PipelineId::DecalDoubleMultiply,
        _ => PipelineId::DecalAlpha,
    }
}

// ---- decorator budget -------------------------------------------------------------------------
/// The instances of the first `n` groups of an order.
pub open spec fn cost_before(meshes: Seq<&GpuMesh>, order: Seq<usize>, n: int) -> int
    decreases n,
{
    if n <= 0 {
        0
    } else {
        cost_before(meshes, order, n - 1) + meshes[order[n - 1] as int].deco_weight
    }
}

/// Whether the mesh at position `i` of an order is drawn: without a budget (0), where it carries no
/// decorators, or while the groups before it have not spent the budget.
pub open spec fn affords(
    meshes: Seq<&GpuMesh>,
    order: Seq<usize>,
    budget: u32,
    i: int,
) -> bool {
    budget == 0 || meshes[order[i] as int].deco_weight == 0 || cost_before(meshes, order, i)
        < budget
}

/// The draws of the first `n` positions of an order.
pub open spec fn foliage_draws(
    meshes: Seq<&GpuMesh>,
    order: Seq<usize>,
    budget: u32,
    n: int,
) -> Seq<Draw>
    decreases n,
{
    if n <= 0 {
        Seq::empty()
    } else {
        let before = foliage_draws(meshes, order, budget, n - 1);
        let at = order[n - 1] as int;
        if affords(meshes, order, budget, n - 1) {
            before.push(whole(*meshes[at], PipelineId::Foliage, 0, at))
        } else {
            before
        }
    }
}

/// What the budget affords is drawn: every mesh without a budget, every mesh that carries no
/// decorators whatever the budget, and the nearest groups until it is spent.
pub proof fn law_afforded_meshes_are_drawn(
    meshes: Seq<&GpuMesh>,
    order: Seq<usize>,
    budget: u32,
    n: int,
    i: int,
)
    requires
        0 <= i < n,
        affords(meshes, order, budget, i),
    ensures
        foliage_draws(meshes, order, budget, n).contains(
            whole(*meshes[order[i] as int], PipelineId::Foliage, 0, order[i] as int),
        ),
    decreases n,
{
    let want = whole(*meshes[order[i] as int], PipelineId::Foliage, 0, order[i] as int);
    let before = foliage_draws(meshes, order, budget, n - 1);
    let all = foliage_draws(meshes, order, budget, n);
    if i == n - 1 {
        assert(all[before.len() as int] == want);
    } else {
        law_afforded_meshes_are_drawn(meshes, order, budget, n - 1, i);
        let k = choose|k: int| 0 <= k < before.len() && before[k] == want;
        assert(all[k] == want);
    }
}

/// How many decorator groups among the first `n` positions are drawn.
pub open spec fn groups_drawn(
    meshes: Seq<&GpuMesh>,
    order: Seq<usize>,
    budget: u32,
    n: int,
) -> int
    decreases n,
{
    if n <= 0 {
        0
    } else {
        groups_drawn(meshes, order, budget, n - 1) + if affords(meshes, order, budget, n - 1)
            && meshes[order[n - 1] as int].deco_weight > 0 {
            1int
        } else {
            0int
        }
    }
}

/// Never more decorator groups than the budget has instances.
pub proof fn law_budget_bounds_the_groups(
    meshes: Seq<&GpuMesh>,
    order: Seq<usize>,
    budget: u32,
    n: int,
)
    requires
        budget != 0,
        n >= 0,
    ensures
        groups_drawn(meshes, order, budget, n) <= budget,
{
    lemma_groups_cost(meshes, order, budget, n);
}

proof fn lemma_groups_cost(meshes: Seq<&GpuMesh>, order: Seq<usize>, budget: u32, n: int)
    requires
        budget != 0,
    ensures
        groups_drawn(meshes, order, budget, n) <= budget,
        groups_drawn(meshes, order, budget, n) <= cost_before(meshes, order, n),
    decreases n,
{
    if n > 0 {
        lemma_groups_cost(meshes, order, budget, n - 1);
    }
}

// ---- transparent items ------------------------------------------------------------------------
/// A transparent draw before sorting: a mesh of a list, whole or one instance of it, and the point
/// by which it is sorted.
#[derive(Clone, Copy, Debug, PartialEq, Eq, Structural)]
pub struct Item {
    pub list: usize,
    pub mesh: usize,
    /// `None`: all instances.
    pub instance: Option<u32>,
    pub at: Vec3,
}

/// A mesh with several instances whose stream is kept is drawn instance by instance.
pub open spec fn splits(m: GpuMesh) -> bool {
    m.instance_count > 1 && m.inst_raw@.len() as u32 == m.instance_count
}

/// The translation of an instance.
pub open spec fn translation(r: crate::mesh::InstanceRaw) -> Vec3 {
    Vec3 { x: r.model.w_axis.x, y: r.model.w_axis.y, z: r.model.w_axis.z }
}

/// The items of one mesh: one per instance at its own translation, or one at the centroid.
pub open spec fn mesh_items(m: GpuMesh, list: int, mesh: int) -> Seq<Item> {
    if splits(m) {
        Seq::new(
            m.inst_raw@.len(),
            |k: int|
                Item {
                    list: list as usize,
                    mesh: mesh as usize,
                    instance: Some(k as u32),
                    at: translation(m.inst_raw@[k]),
                },
        )
    } else {
        seq![Item { list: list as usize, mesh: mesh as usize, instance: None, at: m.centroid }]
    }
}

/// The items of the first `n` meshes of a list.
pub open spec fn list_items(meshes: Seq<&GpuMesh>, list: int, n: int) -> Seq<Item>
    decreases n,
{
    if n <= 0 {
        Seq::empty()
    } else {
        list_items(meshes, list, n - 1) + mesh_items(*meshes[n - 1], list, n - 1)
    }
}

/// The items of the first `n` lists.
pub open spec fn items_of(lists: Seq<(Vec<&GpuMesh>, TransparentKind)>, n: int) -> Seq<Item>
    decreases n,
{
    if n <= 0 {
        Seq::empty()
    } else {
        items_of(lists, n - 1) + list_items(lists[n - 1].0@, n - 1, lists[n - 1].0@.len() as int)
    }
}

/// An item names a mesh of the lists.
pub open spec fn item_in(lists: Seq<(Vec<&GpuMesh>, TransparentKind)>, it: Item) -> bool {
    it.list < lists.len() && it.mesh < lists[it.list as int].0@.len()
}

/// Every item names a mesh of the lists.
pub proof fn law_items_name_meshes(lists: Seq<(Vec<&GpuMesh>, TransparentKind)>, i: int)
    requires
        lists.len() <= usize::MAX,
        0 <= i < items_of(lists, lists.len() as int).len(),
    ensures
        item_in(lists, items_of(lists, lists.len() as int)[i]),
{
    lemma_items_in(lists, lists.len() as int, i);
}

proof fn lemma_items_in(lists: Seq<(Vec<&GpuMesh>, TransparentKind)>, n: int, i: int)
    requires
        0 <= n <= lists.len() <= usize::MAX,
        0 <= i < items_of(lists, n).len(),
    ensures
        item_in(lists, items_of(lists, n)[i]),
    decreases n,
{
    if n > 0 {
        let before = items_of(lists, n - 1);
        if i < before.len() {
            lemma_items_in(lists, n - 1, i);
        } else {
            let meshes = lists[n - 1].0;
            assert(meshes@.len() == meshes.len());
            lemma_list_items_in(meshes@, n - 1, meshes@.len() as int, i - before.len());
        }
    }
}

proof fn lemma_list_items_in(meshes: Seq<&GpuMesh>, list: int, n: int, i: int)
    requires
        0 <= n <= meshes.len() <= usize::MAX,
        0 <= list <= usize::MAX,
        0 <= i < list_items(meshes, list, n).len(),
    ensures
        list_items(meshes, list, n)[i].list == list,
        list_items(meshes, list, n)[i].mesh < n,
    decreases n,
{
    if n > 0 {
        let before = list_items(meshes, list, n - 1);
        if i < before.len() {
            lemma_list_items_in(meshes, list, n - 1, i);
        }
    }
}

/// The item belongs to mesh `mesh` of list `list`.
pub open spec fn belongs(list: int, mesh: int) -> spec_fn(Item) -> bool {
    |it: Item| it.list == list && it.mesh == mesh
}

/// Among all items, those of a mesh are exactly its own, once each and in instance order: nothing
/// is drawn twice and nothing is left out.
pub proof fn law_items_of_a_mesh_are_its_own(
    lists: Seq<(Vec<&GpuMesh>, TransparentKind)>,
    list: int,
    mesh: int,
)
    requires
        lists.len() <= usize::MAX,
        0 <= list < lists.len(),
        0 <= mesh < lists[list].0@.len(),
    ensures
        items_of(lists, lists.len() as int).filter(belongs(list, mesh)) == mesh_items(
            *lists[list].0@[mesh],
            list,
            mesh,
        ),
{
    lemma_items_filter(lists, lists.len() as int, list, mesh);
}

proof fn lemma_items_filter(
    lists: Seq<(Vec<&GpuMesh>, TransparentKind)>,
    n: int,
    list: int,
    mesh: int,
)
    requires
        lists.len() <= usize::MAX,
        0 <= n <= lists.len(),
        0 <= list < lists.len(),
        0 <= mesh < lists[list].0@.len(),
    ensures
        items_of(lists, n).filter(belongs(list, mesh)) == if list < n {
            mesh_items(*lists[list].0@[mesh], list, mesh)
        } else {
            Seq::empty()
        },
    decreases n,
{
    let p = belongs(list, mesh);
    if n <= 0 {
        lemma_filter_none(items_of(lists, n), p);
    } else {
        let meshes = lists[n - 1].0;
        assert(meshes@.len() == meshes.len());
        let before = items_of(lists, n - 1);
        let rest = list_items(meshes@, n - 1, meshes@.len() as int);
        Seq::filter_distributes_over_add(before, rest, p);
        lemma_items_filter(lists, n - 1, list, mesh);
        if list == n - 1 {
            lemma_list_filter(meshes@, list, meshes@.len() as int, mesh);
            assert(Seq::<Item>::empty() + rest.filter(p) =~= rest.filter(p));
        } else {
            assert forall|i: int| 0 <= i < rest.len() implies !p(#[trigger] rest[i]) by {
                lemma_list_items_in(meshes@, n - 1, meshes@.len() as int, i);
            }
            lemma_filter_none(rest, p);
            assert(before.filter(p) + Seq::<Item>::empty() =~= before.filter(p));
        }
    }
}

proof fn lemma_list_filter(meshes: Seq<&GpuMesh>, list: int, n: int, mesh: int)
    requires
        0 <= n <= meshes.len() <= usize::MAX,
        0 <= list <= usize::MAX,
        0 <= mesh < meshes.len(),
    ensures
        list_items(meshes, list, n).filter(belongs(list, mesh)) == if mesh < n {
            mesh_items(*meshes[mesh], list, mesh)
        } else {
            Seq::empty()
        },
    decreases n,
{
    let p = belongs(list, mesh);
    if n <= 0 {
        lemma_filter_none(list_items(meshes, list, n), p);
    } else {
        let before = list_items(meshes, list, n - 1);
        let own = mesh_items(*meshes[n - 1], list, n - 1);
        Seq::filter_distributes_over_add(before, own, p);
        lemma_list_filter(meshes, list, n - 1, mesh);
        if mesh == n - 1 {
            lemma_filter_all(own, p);
            assert(Seq::<Item>::empty() + own =~= own);
        } else {
            lemma_filter_none(own, p);
            assert(before.filter(p) + Seq::<Item>::empty() =~= before.filter(p));
        }
    }
}

proof fn lemma_filter_all(s: Seq<Item>, p: spec_fn(Item) -> bool)
    requires
        forall|i: int| 0 <= i < s.len() ==> p(#[trigger] s[i]),
    ensures
        s.filter(p) == s,
    decreases s.len(),
{
    reveal(Seq::filter);
    if s.len() > 0 {
        assert forall|i: int| 0 <= i < s.drop_last().len() implies p(#[trigger] s.drop_last()[i]) by {
            assert(s.drop_last()[i] == s[i]);
        }
        lemma_filter_all(s.drop_last(), p);
        assert(s.drop_last().push(s.last()) =~= s);
    } else {
        assert(s.filter(p) =~= s);
    }
}

proof fn lemma_filter_none(s: Seq<Item>, p: spec_fn(Item) -> bool)
    requires
        forall|i: int| 0 <= i < s.len() ==> !p(#[trigger] s[i]),
    ensures
        s.filter(p) == Seq::<Item>::empty(),
    decreases s.len(),
{
    reveal(Seq::filter);
    if s.len() > 0 {
        assert forall|i: int| 0 <= i < s.drop_last().len() implies !p(#[trigger] s.drop_last()[i]) by {
            assert(s.drop_last()[i] == s[i]);
        }
        lemma_filter_none(s.drop_last(), p);
    } else {
        assert(s.filter(p) =~= Seq::<Item>::empty());
    }
}

/// How an item is drawn.
pub open spec fn item_draw(lists: Seq<(Vec<&GpuMesh>, TransparentKind)>, it: Item) -> Draw {
    let m = *lists[it.list as int].0@[it.mesh as int];
    Draw {
        pipeline: transparent_route(lists[it.list as int].1, m.blend_mode),
        list: it.list,
        mesh: it.mesh,
        first: match it.instance {
            Some(k) => k,
            None => 0,
        },
        count: match it.instance {
            Some(_) => 1,
            None => m.instance_count,
        },
    }
}

fn append_mesh_items(out: &mut Vec<Item>, m: &GpuMesh, list: usize, mesh: usize)
    ensures
        final(out)@ == old(out)@ + mesh_items(*m, list as int, mesh as int),
{
    let ghost start = out@;
    if m.instance_count > 1 && m.inst_raw.len() as u32 == m.instance_count {
        let mut k: usize = 0;
        let ghost want = mesh_items(*m, list as int, mesh as int);
        assert(out@ =~= start + want.take(0));
        while k < m.inst_raw.len()
            invariant
                k <= m.inst_raw@.len(),
                splits(*m),
                want == mesh_items(*m, list as int, mesh as int),
                out@ == start + want.take(k as int),
            decreases m.inst_raw@.len() - k,
        {
            let w: crate::words::Vec4 = m.inst_raw[k].model.w_axis;
            out.push(
                Item {
                    list,
                    mesh,
                    instance: Some(k as u32),
                    at: Vec3 { x: w.x, y: w.y, z: w.z },
                },
            );
            k = k + 1;
            assert(out@ =~= start + want.take(k as int));
        }
        assert(want.take(k as int) =~= want);
    } else {
        out.push(Item { list, mesh, instance: None, at: m.centroid });
        assert(out@ =~= start + mesh_items(*m, list as int, mesh as int));
    }
}

/// Whether draw `i` needs its pipeline set: the first one does, and each that changes it.
pub open spec fn switches(draws: Seq<Draw>, i: int) -> bool {
    i == 0 || draws[i].pipeline != draws[i - 1].pipeline
}

/// The pipeline that is set at draw `i` when it is set only where it has to be.
pub open spec fn pipeline_at(draws: Seq<Draw>, i: int) -> PipelineId
    decreases i,
{
    if i <= 0 || switches(draws, i) {
        draws[i].pipeline
    } else {
        pipeline_at(draws, i - 1)
    }
}

/// Setting pipelines at the switches alone draws everything through its own pipeline, starts with
/// one, and sets none twice in a row.
pub proof fn law_switches_suffice(draws: Seq<Draw>, i: int)
    requires
        0 <= i < draws.len(),
    ensures
        pipeline_at(draws, i) == draws[i].pipeline,
        switches(draws, 0),
        i > 0 && switches(draws, i) ==> pipeline_at(draws, i - 1) != draws[i].pipeline,
    decreases i,
{
    if i > 0 {
        law_switches_suffice(draws, i - 1);
    }
}

/// Whether each draw needs its pipeline set: the first one, and each that changes it.
pub fn pipeline_switches(draws: &Vec<Draw>) -> (s: Vec<bool>)
    ensures
        s@ == Seq::new(draws@.len(), |i: int| switches(draws@, i)),
{
    let mut s: Vec<bool> = Vec::new();
    let mut i: usize = 0;
    while i < draws.len()
        invariant
            i <= draws@.len(),
            s@.len() == i,
            forall|k: int|
                0 <= k < i ==> #[trigger] s@[k] == (k == 0 || draws@[k].pipeline != draws@[k
                    - 1].pipeline),
        decreases draws@.len() - i,
    {
        s.push(i == 0 || draws[i].pipeline != draws[i - 1].pipeline);
        i = i + 1;
    }
    s
}

// ---- passes -----------------------------------------------------------------------------------
/// The draws of an order of meshes, each whole and through its own pipeline.
pub open spec fn ordered_draws(
    meshes: Seq<&GpuMesh>,
    order: Seq<usize>,
    route: Seq<PipelineId>,
    n: int,
) -> Seq<Draw> {
    Seq::new(
        n as nat,
        |i: int|
            whole(
                *meshes[order[i] as int],
                route[order[i] as int],
                0,
                order[i] as int,
            ),
    )
}

/// The foliage pass: nearest first, as far as the budget goes.
pub open spec fn is_foliage_pass(
    out: Seq<Draw>,
    meshes: Seq<&GpuMesh>,
    d2: Seq<u32>,
    budget: u32,
) -> bool {
    exists|order: Seq<usize>| #[trigger]
        sort::is_stable_order(near_keys(d2), order) && out == foliage_draws(
            meshes,
            order,
            budget,
            meshes.len() as int,
        )
}

/// The particle pass: farthest first, each batch by its mode.
pub open spec fn is_particle_pass(out: Seq<Draw>, meshes: Seq<&GpuMesh>, d2: Seq<u32>) -> bool {
    exists|order: Seq<usize>| #[trigger]
        sort::is_stable_order(far_keys(d2), order) && out == ordered_draws(
            meshes,
            order,
            Seq::new(meshes.len(), |i: int| particle_route(meshes[i].blend_mode)),
            meshes.len() as int,
        )
}

/// The transparent pass: all items, farthest first.
pub open spec fn is_transparent_pass(
    out: Seq<Draw>,
    lists: Seq<(Vec<&GpuMesh>, TransparentKind)>,
    items: Seq<Item>,
    d2: Seq<u32>,
) -> bool {
    exists|order: Seq<usize>| #[trigger]
        sort::is_stable_order(far_keys(d2), order) && out == Seq::new(
            items.len(),
            |i: int| item_draw(lists, items[order[i] as int]),
        )
}

/// The sky pass: opaque segments first, then by radius, each by its blend value.
pub open spec fn is_sky_pass(
    out: Seq<Draw>,
    segments: Seq<&GpuMesh>,
    blends: Seq<u8>,
    radii: Seq<u32>,
    legacy: bool,
) -> bool {
    exists|order: Seq<usize>| #[trigger]
        sort::is_stable_order(sky_keys(blends, radii), order) && out == ordered_draws(
            segments,
            order,
            Seq::new(segments.len(), |i: int| sky_route(blends[i], legacy)),
            segments.len() as int,
        )
}

/// The decal pass: by bucket.
pub open spec fn is_decal_pass(
    out: Seq<Draw>,
    decals: Seq<&GpuMesh>,
    buckets: Seq<u8>,
) -> bool {
    exists|order: Seq<usize>| #[trigger]
        sort::is_stable_order(bucket_keys(buckets), order) && out == ordered_draws(
            decals,
            order,
            Seq::new(decals.len(), |i: int| decal_route(buckets[i])),
            decals.len() as int,
        )
}

/// The opaque pass over a list.
pub open spec fn opaque_pass(meshes: Seq<&GpuMesh>) -> Seq<Draw> {
    draws_of(meshes, PipelineId::Mesh, Pick::NotTerrain, 0, meshes.len() as int)
}

/// The terrain pass over a list.
pub open spec fn terrain_pass(meshes: Seq<&GpuMesh>) -> Seq<Draw> {
    draws_of(meshes, PipelineId::Terrain, Pick::Terrain, 0, meshes.len() as int)
}

/// The cutout pass over a list.
pub open spec fn cutout_pass(meshes: Seq<&GpuMesh>) -> Seq<Draw> {
    draws_of(meshes, PipelineId::AlphaTest, Pick::All, 0, meshes.len() as int)
}

/// The glow pass over a list.
pub open spec fn glow_pass(meshes: Seq<&GpuMesh>) -> Seq<Draw> {
    draws_of(meshes, PipelineId::Additive, Pick::All, 0, meshes.len() as int)
}

/// The water pass over a list.
pub open spec fn water_pass(meshes: Seq<&GpuMesh>) -> Seq<Draw> {
    draws_of(meshes, PipelineId::Water, Pick::All, 0, meshes.len() as int)
}

/// The shadow pass over several lists.
pub open spec fn shadow_pass(batches: Seq<Vec<&GpuMesh>>) -> Seq<Draw> {
    lists_draws(batches, PipelineId::Shadow, Pick::Casters, 0, batches.len() as int)
}

/// The sun shadow pass over the dynamic lists and then the static ones.
pub open spec fn sun_pass(
    dynamic: Seq<Vec<&GpuMesh>>,
    static_flagged: Seq<Vec<&GpuMesh>>,
    static_all: bool,
) -> Seq<Draw> {
    lists_draws(dynamic, PipelineId::ShadowH4, Pick::Casters, 0, dynamic.len() as int)
        + lists_draws(
        static_flagged,
        PipelineId::ShadowH4,
        if static_all {
            Pick::Casters
        } else {
            Pick::FlaggedCasters
        },
        dynamic.len() as int,
        static_flagged.len() as int,
    )
}

impl MeshRenderer {
    /// Opaque meshes; terrain has its own pass.
    pub fn draw(&self, meshes: &Vec<&GpuMesh>) -> (out: Vec<Draw>)
        ensures
            out@ == opaque_pass(meshes@),
    {
        let mut out: Vec<Draw> = Vec::new();
        append_draws(&mut out, meshes, PipelineId::Mesh, Pick::NotTerrain, 0);
        assert(out@ =~= opaque_pass(meshes@));
        out
    }

    /// Cutout meshes.
    pub fn draw_alphatest(&self, meshes: &Vec<&GpuMesh>) -> (out: Vec<Draw>)
        ensures
            out@ == cutout_pass(meshes@),
    {
        let mut out: Vec<Draw> = Vec::new();
        append_draws(&mut out, meshes, PipelineId::AlphaTest, Pick::All, 0);
        assert(out@ =~= cutout_pass(meshes@));
        out
    }

    /// Holograms, force fields and glow.
    pub fn draw_additive(&self, meshes: &Vec<&GpuMesh>) -> (out: Vec<Draw>)
        ensures
            out@ == glow_pass(meshes@),
    {
        let mut out: Vec<Draw> = Vec::new();
        append_draws(&mut out, meshes, PipelineId::Additive, Pick::All, 0);
        assert(out@ =~= glow_pass(meshes@));
        out
    }

    /// Water surfaces.
    pub fn draw_water(&self, meshes: &Vec<&GpuMesh>) -> (out: Vec<Draw>)
        ensures
            out@ == water_pass(meshes@),
    {
        let mut out: Vec<Draw> = Vec::new();
        append_draws(&mut out, meshes, PipelineId::Water, Pick::All, 0);
        assert(out@ =~= water_pass(meshes@));
        out
    }

    /// Terrain meshes only.
    pub fn draw_terrain(&self, meshes: &Vec<&GpuMesh>) -> (out: Vec<Draw>)
        ensures
            out@ == terrain_pass(meshes@),
    {
        let mut out: Vec<Draw> = Vec::new();
        append_draws(&mut out, meshes, PipelineId::Terrain, Pick::Terrain, 0);
        assert(out@ =~= terrain_pass(meshes@));
        out
    }

    /// The casters of all batches into the shadow map.
    pub fn draw_shadow(&self, batches: &Vec<Vec<&GpuMesh>>) -> (out: Vec<Draw>)
        ensures
            out@ == shadow_pass(batches@),
    {
        let mut out: Vec<Draw> = Vec::new();
        assert(batches@.len() == batches.len());
        append_lists(&mut out, batches, PipelineId::Shadow, Pick::Casters, 0);
        assert(out@ =~= shadow_pass(batches@));
        out
    }

    /// The sun shadow map: the casters of the dynamic lists, then those of the static lists that
    /// are flagged as casters (all of their casters with `static_all`). Static lists are numbered
    /// behind the dynamic ones.
    pub fn draw_shadow_h4(
        &self,
        dynamic: &Vec<Vec<&GpuMesh>>,
        static_flagged: &Vec<Vec<&GpuMesh>>,
        static_all: bool,
    ) -> (out: Vec<Draw>)
        requires
            dynamic@.len() + static_flagged@.len() <= usize::MAX,
        ensures
            out@ == sun_pass(dynamic@, static_flagged@, static_all),
    {
        let mut out: Vec<Draw> = Vec::new();
        append_lists(&mut out, dynamic, PipelineId::ShadowH4, Pick::Casters, 0);
        let pick: Pick = if static_all {
            Pick::Casters
        } else {
            Pick::FlaggedCasters
        };
        append_lists(&mut out, static_flagged, PipelineId::ShadowH4, pick, dynamic.len());
        assert(out@ =~= sun_pass(dynamic@, static_flagged@, static_all));
        out
    }

    /// Decorator groups, nearest first, until the instance budget is spent (0 = no limit); meshes
    /// that carry no decorators are drawn in any case. `d2` holds the squared distance of each
    /// mesh.
    pub fn draw_foliage(&self, meshes: &Vec<&GpuMesh>, d2: &Vec<u32>, budget: u32) -> (out: Vec<
        Draw,
    >)
        requires
            d2@.len() == meshes@.len(),
        ensures
            is_foliage_pass(out@, meshes@, d2@, budget),
    {
        let order: Vec<usize> = near_first(d2);
        let mut out: Vec<Draw> = Vec::new();
        let mut spent: u32 = 0;
        let mut i: usize = 0;
        while i < order.len()
            invariant
                d2@.len() == meshes@.len(),
                sort::is_stable_order(near_keys(d2@), order@),
                i <= order@.len(),
                spent == u32::MAX ==> cost_before(meshes@, order@, i as int) >= u32::MAX,
                spent < u32::MAX ==> cost_before(meshes@, order@, i as int) == spent,
                out@ == foliage_draws(meshes@, order@, budget, i as int),
            decreases order@.len() - i,
        {
            let at: usize = order[i];
            assert(at < meshes@.len());
            let m: &GpuMesh = meshes[at];
            if budget == 0 || m.deco_weight == 0 || spent < budget {
                out.push(
                    Draw {
                        pipeline: PipelineId::Foliage,
                        list: 0,
                        mesh: at,
                        first: 0,
                        count: m.instance_count,
                    },
                );
            }
            spent =
            if spent > u32::MAX - m.deco_weight {
                u32::MAX
            } else {
                spent + m.deco_weight
            };
            i = i + 1;
        }
        out
    }

    /// Particle batches back to front, each through the pipeline of its blend mode. `d2` holds the
    /// squared distance of each batch.
    pub fn draw_particles(&self, meshes: &Vec<&GpuMesh>, d2: &Vec<u32>) -> (out: Vec<Draw>)
        requires
            d2@.len() == meshes@.len(),
        ensures
            is_particle_pass(out@, meshes@, d2@),
    {
        let order: Vec<usize> = far_first(d2);
        let ghost route = Seq::new(meshes@.len(), |i: int| particle_route(meshes@[i].blend_mode));
        let mut out: Vec<Draw> = Vec::new();
        let mut i: usize = 0;
        while i < order.len()
            invariant
                d2@.len() == meshes@.len(),
                sort::is_stable_order(far_keys(d2@), order@),
                route == Seq::new(meshes@.len(), |i: int| particle_route(meshes@[i].blend_mode)),
                i <= order@.len(),
                out@ == ordered_draws(meshes@, order@, route, i as int),
            decreases order@.len() - i,
        {
            let at: usize = order[i];
            assert(at < meshes@.len());
            let m: &GpuMesh = meshes[at];
            out.push(
                Draw {
                    pipeline: route_particle(m.blend_mode),
                    list: 0,
                    mesh: at,
                    first: 0,
                    count: m.instance_count,
                },
            );
            i = i + 1;
            assert(out@ =~= ordered_draws(meshes@, order@, route, i as int));
        }
        out
    }

    /// The items of several transparent lists: meshes with several instances are split, so that
    /// each instance is sorted by its own translation.
    pub fn transparent_items(&self, lists: &Vec<(Vec<&GpuMesh>, TransparentKind)>) -> (out: Vec<
        Item,
    >)
        ensures
            out@ == items_of(lists@, lists@.len() as int),
    {
        let mut out: Vec<Item> = Vec::new();
        let mut l: usize = 0;
        assert(out@ =~= items_of(lists@, 0));
        while l < lists.len()
            invariant
                l <= lists@.len(),
                out@ == items_of(lists@, l as int),
            decreases lists@.len() - l,
        {
            let meshes: &Vec<&GpuMesh> = &lists[l].0;
            let ghost before = out@;
            let mut i: usize = 0;
            assert(out@ =~= before + list_items(meshes@, l as int, 0));
            while i < meshes.len()
                invariant
                    i <= meshes@.len(),
                    out@ == before + list_items(meshes@, l as int, i as int),
                decreases meshes@.len() - i,
            {
                append_mesh_items(&mut out, meshes[i], l, i);
                i = i + 1;
                assert(out@ =~= before + list_items(meshes@, l as int, i as int));
            }
            l = l + 1;
        }
        out
    }

    /// The items of several transparent lists, all of them, as one back-to-front sequence, each
    /// through the pipeline of its family and mode. `items` are those of the lists; `d2`
    /// holds the squared distance of each item's point.
    pub fn draw_transparent_sorted(
        &self,
        lists: &Vec<(Vec<&GpuMesh>, TransparentKind)>,
        items: &Vec<Item>,
        d2: &Vec<u32>,
    ) -> (out: Vec<Draw>)
        requires
            items@ == items_of(lists@, lists@.len() as int),
            d2@.len() == items@.len(),
        ensures
            is_transparent_pass(out@, lists@, items@, d2@),
    {
        proof {
            assert(lists@.len() == lists.len());
            assert forall|i: int| 0 <= i < items@.len() implies item_in(
                lists@,
                #[trigger] items@[i],
            ) by {
                law_items_name_meshes(lists@, i);
            }
        }
        let order: Vec<usize> = far_first(d2);
        let mut out: Vec<Draw> = Vec::new();
        let mut i: usize = 0;
        while i < order.len()
            invariant
                d2@.len() == items@.len(),
                forall|i: int| 0 <= i < items@.len() ==> item_in(lists@, #[trigger] items@[i]),
                sort::is_stable_order(far_keys(d2@), order@),
                i <= order@.len(),
                out@.len() == i,
                forall|k: int|
                    0 <= k < i ==> #[trigger] out@[k] == item_draw(
                        lists@,
                        items@[order@[k] as int],
                    ),
            decreases order@.len() - i,
        {
            let at: usize = order[i];
            assert(at < items@.len());
            let it: Item = items[at];
            assert(item_in(lists@, items@[at as int]));
            let m: &GpuMesh = lists[it.list].0[it.mesh];
            let pipeline: PipelineId = route_transparent(lists[it.list].1, m.blend_mode);
            let (first, count): (u32, u32) = match it.instance {
                Some(k) => (k, 1),
                None => (0, m.instance_count),
            };
            out.push(Draw { pipeline, list: it.list, mesh: it.mesh, first, count });
            i = i + 1;
        }
        proof {
            assert(out@ =~= Seq::new(
                items@.len(),
                |i: int| item_draw(lists@, items@[order@[i] as int]),
            ));
        }
        out
    }

    /// Sky segments: opaque ones first, then translucent ones from the largest radius to the
    /// smallest, each through the pipeline of its blend value.
    pub fn draw_sky(
        &self,
        segments: &Vec<&GpuMesh>,
        blends: &Vec<u8>,
        radii: &Vec<u32>,
    ) -> (out: Vec<Draw>)
        requires
            blends@.len() == segments@.len(),
            radii@.len() == segments@.len(),
        ensures
            is_sky_pass(out@, segments@, blends@, radii@, self.legacy_sky),
    {
        let mut keys: Vec<u64> = Vec::new();
        let mut k: usize = 0;
        while k < radii.len()
            invariant
                k <= radii@.len(),
                blends@.len() == radii@.len(),
                keys@ == sky_keys(blends@, radii@).take(k as int),
            decreases radii@.len() - k,
        {
            let group: u64 = if blends[k] == 0 { 0 } else { 0x1_0000_0000 };
            keys.push(group + (0xffff_ffff - f32bits::order_key(radii[k]) as u64));
            k = k + 1;
            assert(keys@ =~= sky_keys(blends@, radii@).take(k as int));
        }
        assert(keys@ =~= sky_keys(blends@, radii@));
        let order: Vec<usize> = sort::stable_order(&keys);
        let ghost route = Seq::new(
            segments@.len(),
            |i: int| sky_route(blends@[i], self.legacy_sky),
        );
        let mut out: Vec<Draw> = Vec::new();
        let mut i: usize = 0;
        while i < order.len()
            invariant
                blends@.len() == segments@.len(),
                radii@.len() == segments@.len(),
                sort::is_stable_order(sky_keys(blends@, radii@), order@),
                route == Seq::new(
                    segments@.len(),
                    |i: int| sky_route(blends@[i], self.legacy_sky),
                ),
                i <= order@.len(),
                out@ == ordered_draws(segments@, order@, route, i as int),
            decreases order@.len() - i,
        {
            let at: usize = order[i];
            assert(at < segments@.len());
            let m: &GpuMesh = segments[at];
            out.push(
                Draw {
                    pipeline: route_sky(blends[at], self.legacy_sky),
                    list: 0,
                    mesh: at,
                    first: 0,
                    count: m.instance_count,
                },
            );
            i = i + 1;
            assert(out@ =~= ordered_draws(segments@, order@, route, i as int));
        }
        out
    }

    /// Decals by bucket, so that multiplied scorch darkens the final colour, each through the
    /// pipeline of its bucket.
    pub fn draw_decals(&self, decals: &Vec<&GpuMesh>, buckets: &Vec<u8>) -> (out: Vec<Draw>)
        requires
            buckets@.len() == decals@.len(),
        ensures
            is_decal_pass(out@, decals@, buckets@),
    {
        let mut keys: Vec<u64> = Vec::new();
        let mut k: usize = 0;
        while k < buckets.len()
            invariant
                k <= buckets@.len(),
                keys@ == bucket_keys(buckets@).take(k as int),
            decreases buckets@.len() - k,
        {
            keys.push(buckets[k] as u64);
            k = k + 1;
            assert(keys@ =~= bucket_keys(buckets@).take(k as int));
        }
        assert(keys@ =~= bucket_keys(buckets@));
        let order: Vec<usize> = sort::stable_order(&keys);
        let ghost route = Seq::new(decals@.len(), |i: int| decal_route(buckets@[i]));
        let mut out: Vec<Draw> = Vec::new();
        let mut i: usize = 0;
        while i < order.len()
            invariant
                buckets@.len() == decals@.len(),
                sort::is_stable_order(bucket_keys(buckets@), order@),
                route == Seq::new(decals@.len(), |i: int| decal_route(buckets@[i])),
                i <= order@.len(),
                out@ == ordered_draws(decals@, order@, route, i as int),
            decreases order@.len() - i,
        {
            let at: usize = order[i];
            assert(at < decals@.len());
            let m: &GpuMesh = decals[at];
            out.push(
                Draw {
                    pipeline: route_decal(buckets[at]),
                    list: 0,
                    mesh: at,
                    first: 0,
                    count: m.instance_count,
                },
            );
            i = i + 1;
            assert(out@ =~= ordered_draws(decals@, order@, route, i as int));
        }
        out
    }
}

// ---- what the passes draw ---------------------------------------------------------------------
/// How often mesh `i` of list `l` is drawn.
pub open spec fn times_drawn(draws: Seq<Draw>, l: int, i: int) -> int {
    draws.filter(|d: Draw| d.list == l && d.mesh == i).len() as int
}

/// Every draw of a list pass draws all instances of the mesh it names through the pass's pipeline,
/// and the meshes come in list order.
pub proof fn law_list_draws_are_whole(
    meshes: Seq<&GpuMesh>,
    pipeline: PipelineId,
    pick: Pick,
    list: int,
    n: int,
    k: int,
)
    requires
        0 <= n <= meshes.len() <= usize::MAX,
        0 <= list <= usize::MAX,
        0 <= k < draws_of(meshes, pipeline, pick, list, n).len(),
    ensures
        ({
            let ds = draws_of(meshes, pipeline, pick, list, n);
            let d = ds[k];
            &&& d.pipeline == pipeline
            &&& d.list == list
            &&& d.mesh < n
            &&& picks(pick, *meshes[d.mesh as int])
            &&& d.first == 0
            &&& d.count == meshes[d.mesh as int].instance_count
            &&& forall|j: int| 0 <= j < k ==> (#[trigger] ds[j]).mesh < d.mesh
        }),
    decreases n,
{
    if n > 0 {
        let before = draws_of(meshes, pipeline, pick, list, n - 1);
        let ds = draws_of(meshes, pipeline, pick, list, n);
        if k < before.len() {
            law_list_draws_are_whole(meshes, pipeline, pick, list, n - 1, k);
            assert forall|j: int| 0 <= j < k implies (#[trigger] ds[j]).mesh < ds[k].mesh by {
                assert(ds[j] == before[j]);
            }
        } else {
            assert forall|j: int| 0 <= j < k implies (#[trigger] ds[j]).mesh < ds[k].mesh by {
                law_list_draws_are_whole(meshes, pipeline, pick, list, n - 1, j);
                assert(ds[j] == before[j]);
            }
        }
    }
}

/// What the picks mean of a mesh: terrain is what the terrain upload made, a caster is a mesh that
/// casts shadows, and a flagged caster a caster that is flagged.
pub proof fn law_picks(m: GpuMesh)
    ensures
        picks(Pick::All, m),
        picks(Pick::Terrain, m) <==> m.is_terrain,
        picks(Pick::NotTerrain, m) <==> !picks(Pick::Terrain, m),
        picks(Pick::Casters, m) <==> m.casts_shadow,
        picks(Pick::FlaggedCasters, m) ==> picks(Pick::Casters, m) && m.h4_caster,
        picks(Pick::Casters, m) && m.h4_caster ==> picks(Pick::FlaggedCasters, m),
{
}

proof fn lemma_times_drawn(
    meshes: Seq<&GpuMesh>,
    pipeline: PipelineId,
    pick: Pick,
    list: int,
    n: int,
    l: int,
    i: int,
)
    requires
        0 <= n <= meshes.len() <= usize::MAX,
        0 <= list <= usize::MAX,
        0 <= i,
    ensures
        times_drawn(draws_of(meshes, pipeline, pick, list, n), l, i) == if l == list && i < n
            && picks(pick, *meshes[i]) {
            1int
        } else {
            0int
        },
    decreases n,
{
    reveal(Seq::filter);
    if n > 0 {
        lemma_times_drawn(meshes, pipeline, pick, list, n - 1, l, i);
        let before = draws_of(meshes, pipeline, pick, list, n - 1);
        let all = draws_of(meshes, pipeline, pick, list, n);
        if picks(pick, *meshes[n - 1]) {
            assert(all.drop_last() =~= before);
        }
    }
}

proof fn lemma_times_drawn_in_lists(
    lists: Seq<Vec<&GpuMesh>>,
    pipeline: PipelineId,
    pick: Pick,
    base: int,
    n: int,
    l: int,
    i: int,
)
    requires
        0 <= n <= lists.len(),
        0 <= base,
        base + lists.len() <= usize::MAX,
        0 <= i,
    ensures
        times_drawn(lists_draws(lists, pipeline, pick, base, n), l, i) == if base <= l < base + n
            && i < lists[l - base]@.len() && picks(pick, *lists[l - base]@[i]) {
            1int
        } else {
            0int
        },
    decreases n,
{
    let p = |d: Draw| d.list == l && d.mesh == i;
    if n > 0 {
        lemma_times_drawn_in_lists(lists, pipeline, pick, base, n - 1, l, i);
        let v = lists[n - 1];
        assert(v@.len() == v.len());
        let rest = draws_of(v@, pipeline, pick, base + n - 1, v@.len() as int);
        lemma_times_drawn(v@, pipeline, pick, base + n - 1, v@.len() as int, l, i);
        Seq::filter_distributes_over_add(
            lists_draws(lists, pipeline, pick, base, n - 1),
            rest,
            p,
        );
    } else {
        reveal(Seq::filter);
    }
}

/// The terrain pass and the opaque pass share a list between them: each mesh is drawn by one of the
/// two, once, and by the terrain pass exactly when it is terrain.
pub proof fn law_terrain_is_drawn_by_its_own_pass(meshes: Seq<&GpuMesh>, i: int)
    requires
        0 <= i < meshes.len() <= usize::MAX,
    ensures
        times_drawn(opaque_pass(meshes), 0, i) + times_drawn(terrain_pass(meshes), 0, i) == 1,
        times_drawn(terrain_pass(meshes), 0, i) == 1 <==> meshes[i].is_terrain,
{
    let n = meshes.len() as int;
    lemma_times_drawn(meshes, PipelineId::Mesh, Pick::NotTerrain, 0, n, 0, i);
    lemma_times_drawn(meshes, PipelineId::Terrain, Pick::Terrain, 0, n, 0, i);
}

/// The cutout, glow and water passes draw every mesh of their lists once.
pub proof fn law_plain_passes_draw_everything(meshes: Seq<&GpuMesh>, i: int)
    requires
        0 <= i < meshes.len() <= usize::MAX,
    ensures
        times_drawn(cutout_pass(meshes), 0, i) == 1,
        times_drawn(glow_pass(meshes), 0, i) == 1,
        times_drawn(water_pass(meshes), 0, i) == 1,
{
    let n = meshes.len() as int;
    lemma_times_drawn(meshes, PipelineId::AlphaTest, Pick::All, 0, n, 0, i);
    lemma_times_drawn(meshes, PipelineId::Additive, Pick::All, 0, n, 0, i);
    lemma_times_drawn(meshes, PipelineId::Water, Pick::All, 0, n, 0, i);
}

/// Each pass draws through its own pipeline.
pub proof fn law_passes_have_their_pipelines(meshes: Seq<&GpuMesh>, k: int)
    requires
        meshes.len() <= usize::MAX,
        k >= 0,
    ensures
        k < opaque_pass(meshes).len() ==> opaque_pass(meshes)[k].pipeline == PipelineId::Mesh,
        k < terrain_pass(meshes).len() ==> terrain_pass(meshes)[k].pipeline == PipelineId::Terrain,
        k < cutout_pass(meshes).len() ==> cutout_pass(meshes)[k].pipeline == PipelineId::AlphaTest,
        k < glow_pass(meshes).len() ==> glow_pass(meshes)[k].pipeline == PipelineId::Additive,
        k < water_pass(meshes).len() ==> water_pass(meshes)[k].pipeline == PipelineId::Water,
{
    let n = meshes.len() as int;
    if k < opaque_pass(meshes).len() {
        law_list_draws_are_whole(meshes, PipelineId::Mesh, Pick::NotTerrain, 0, n, k);
    }
    if k < terrain_pass(meshes).len() {
        law_list_draws_are_whole(meshes, PipelineId::Terrain, Pick::Terrain, 0, n, k);
    }
    if k < cutout_pass(meshes).len() {
        law_list_draws_are_whole(meshes, PipelineId::AlphaTest, Pick::All, 0, n, k);
    }
    if k < glow_pass(meshes).len() {
        law_list_draws_are_whole(meshes, PipelineId::Additive, Pick::All, 0, n, k);
    }
    if k < water_pass(meshes).len() {
        law_list_draws_are_whole(meshes, PipelineId::Water, Pick::All, 0, n, k);
    }
}

/// The shadow pass draws the casters of every list, each once, and nothing else.
pub proof fn law_every_caster_is_drawn_once(batches: Seq<Vec<&GpuMesh>>, l: int, i: int)
    requires
        batches.len() <= usize::MAX,
        0 <= l < batches.len(),
        0 <= i < batches[l]@.len(),
    ensures
        times_drawn(shadow_pass(batches), l, i) == if batches[l]@[i].casts_shadow {
            1int
        } else {
            0int
        },
{
    lemma_times_drawn_in_lists(
        batches,
        PipelineId::Shadow,
        Pick::Casters,
        0,
        batches.len() as int,
        l,
        i,
    );
}

/// The sun shadow pass draws the casters of the dynamic lists, and of the static lists, numbered
/// behind them, the casters that are flagged, or all casters where that is asked for; each once,
/// and nothing else.
pub proof fn law_sun_casters_are_drawn_once(
    dynamic: Seq<Vec<&GpuMesh>>,
    fixed: Seq<Vec<&GpuMesh>>,
    all: bool,
    l: int,
    i: int,
)
    requires
        dynamic.len() + fixed.len() <= usize::MAX,
        0 <= l < dynamic.len() + fixed.len(),
        0 <= i,
    ensures
        l < dynamic.len() && i < dynamic[l]@.len() ==> times_drawn(
            sun_pass(dynamic, fixed, all),
            l,
            i,
        ) == if dynamic[l]@[i].casts_shadow {
            1int
        } else {
            0int
        },
        l >= dynamic.len() && i < fixed[l - dynamic.len()]@.len() ==> times_drawn(
            sun_pass(dynamic, fixed, all),
            l,
            i,
        ) == if fixed[l - dynamic.len()]@[i].casts_shadow && (all || fixed[l
            - dynamic.len()]@[i].h4_caster) {
            1int
        } else {
            0int
        },
{
    let n = dynamic.len() as int;
    let m = fixed.len() as int;
    let pick = if all {
        Pick::Casters
    } else {
        Pick::FlaggedCasters
    };
    lemma_times_drawn_in_lists(dynamic, PipelineId::ShadowH4, Pick::Casters, 0, n, l, i);
    lemma_times_drawn_in_lists(fixed, PipelineId::ShadowH4, pick, n, m, l, i);
    Seq::filter_distributes_over_add(
        lists_draws(dynamic, PipelineId::ShadowH4, Pick::Casters, 0, n),
        lists_draws(fixed, PipelineId::ShadowH4, pick, n, m),
        |d: Draw| d.list == l && d.mesh == i,
    );
}

/// Every draw of a pass over several lists draws all instances of the mesh it names.
pub proof fn law_batch_draws_are_whole(
    lists: Seq<Vec<&GpuMesh>>,
    pipeline: PipelineId,
    pick: Pick,
    base: int,
    n: int,
    k: int,
)
    requires
        0 <= n <= lists.len(),
        0 <= base,
        base + lists.len() <= usize::MAX,
        0 <= k < lists_draws(lists, pipeline, pick, base, n).len(),
    ensures
        ({
            let d = lists_draws(lists, pipeline, pick, base, n)[k];
            &&& d.pipeline == pipeline
            &&& base <= d.list < base + n
            &&& d.mesh < lists[d.list - base]@.len()
            &&& d.first == 0
            &&& d.count == lists[d.list - base]@[d.mesh as int].instance_count
        }),
    decreases n,
{
    if n > 0 {
        let before = lists_draws(lists, pipeline, pick, base, n - 1);
        if k < before.len() {
            law_batch_draws_are_whole(lists, pipeline, pick, base, n - 1, k);
        } else {
            let v = lists[n - 1];
            assert(v@.len() == v.len());
            law_list_draws_are_whole(
                v@,
                pipeline,
                pick,
                base + n - 1,
                v@.len() as int,
                k - before.len(),
            );
        }
    }
}

/// Sorted passes draw, at each place of the order, all instances of the mesh that stands there,
/// through its own pipeline.
pub proof fn law_sorted_draws_follow_the_order(
    meshes: Seq<&GpuMesh>,
    order: Seq<usize>,
    route: Seq<PipelineId>,
    n: int,
    i: int,
)
    requires
        0 <= i < n <= order.len(),
    ensures
        ({
            let d = ordered_draws(meshes, order, route, n)[i];
            &&& ordered_draws(meshes, order, route, n).len() == n
            &&& d.mesh == order[i]
            &&& d.pipeline == route[order[i] as int]
            &&& d.list == 0
            &&& d.first == 0
            &&& d.count == meshes[order[i] as int].instance_count
        }),
{
}

/// A transparent mesh is blended as its list and its mode say: glow adds, markers and glass mix by
/// alpha, and in the blend family mode 1 is premultiplied, 2 a product and 3 twice a product.
pub proof fn law_transparent_meshes_blend(
    kind: TransparentKind,
    mode: u8,
    p: crate::pipeline::PipelineDesc,
    legacy_sky: bool,
    f: crate::pipeline::Formats,
    s: int,
    a: int,
    b: int,
    one: int,
)
    requires
        crate::pipeline::describes(p, transparent_route(kind, mode), legacy_sky, f),
    ensures
        ({
            let r = crate::pipeline::mode_result(p.blend, s, a, b, one);
            &&& kind == TransparentKind::Additive ==> r == s * one + b * one && (p.fs matches Some(t)
                && t@ == "fs_holo"@)
            &&& kind == TransparentKind::HoloSolid ==> r == s * a + b * (one - a) && (
            p.fs matches Some(t) && t@ == "fs_holo_solid"@)
            &&& kind == TransparentKind::Blend ==> if mode == 1 {
                r == s * one + b * (one - a) && (p.fs matches Some(t) && t@ == "fs_blend_premul"@)
            } else if mode == 2 {
                r == s * b && (p.fs matches Some(t) && t@ == "fs_blend_multiplicative"@)
            } else if mode == 3 {
                r == 2 * (s * b) && (p.fs matches Some(t) && t@ == "fs_blend_multiplicative"@)
            } else {
                r == s * a + b * (one - a) && (p.fs matches Some(t) && t@ == "fs_blend"@)
            }
        }),
{
}

/// A particle batch is blended as its mode says: 4 adds, 1 is premultiplied, 2 a product, anything
/// else straight alpha.
pub proof fn law_particles_blend(
    mode: u8,
    p: crate::pipeline::PipelineDesc,
    legacy_sky: bool,
    f: crate::pipeline::Formats,
    s: int,
    a: int,
    b: int,
    one: int,
)
    requires
        crate::pipeline::describes(p, particle_route(mode), legacy_sky, f),
    ensures
        p.fs matches Some(t) && t@ == "fs_particle"@,
        crate::pipeline::mode_result(p.blend, s, a, b, one) == if mode == 4 {
            s * one + b * one
        } else if mode == 1 {
            s * one + b * (one - a)
        } else if mode == 2 {
            s * b
        } else {
            s * a + b * (one - a)
        },
{
}

/// A sky segment is blended as its value says, through a sky shader: 1, 5, 7 and 9 add, 2 and 3
/// multiply, 4 is straight alpha, 6 and 8 are premultiplied (straight alpha in the legacy sky), and
/// anything else covers what is behind it.
pub proof fn law_sky_segments_blend(
    blend: u8,
    legacy: bool,
    p: crate::pipeline::PipelineDesc,
    f: crate::pipeline::Formats,
    s: int,
    a: int,
    b: int,
    one: int,
)
    requires
        crate::pipeline::describes(p, sky_route(blend, legacy), legacy, f),
    ensures
        p.shader == if legacy {
            crate::pipeline::ShaderId::SkyLegacy
        } else {
            crate::pipeline::ShaderId::Sky
        },
        crate::pipeline::mode_result(p.blend, s, a, b, one) == match blend {
            1 | 5 | 7 | 9 => s * one + b * one,
            2 | 3 => s * b,
            4 => s * a + b * (one - a),
            6 | 8 => if legacy {
                s * a + b * (one - a)
            } else {
                s * one + b * (one - a)
            },
            _ => s * one,
        },
{
}

/// A decal is blended as its bucket says, from vertices that are nudged towards the camera: 1 adds
/// by its alpha, 2 multiplies, 3 is premultiplied, 4 mixes by the inverse of its alpha, 5 and
/// anything unknown by its alpha, 6 multiplies twice. Bucket 5 has a shader of its own.
pub proof fn law_decals_blend(
    bucket: u8,
    p: crate::pipeline::PipelineDesc,
    legacy_sky: bool,
    f: crate::pipeline::Formats,
    s: int,
    a: int,
    b: int,
    one: int,
)
    requires
        crate::pipeline::describes(p, decal_route(bucket), legacy_sky, f),
    ensures
        p.vs@ == "vs_decal"@,
        crate::pipeline::mode_result(p.blend, s, a, b, one) == match bucket {
            1 => s * a + b * one,
            2 => s * b,
            3 => s * one + b * (one - a),
            4 => s * (one - a) + b * a,
            6 => 2 * (s * b),
            _ => s * a + b * (one - a),
        },
        bucket == 5 ==> (p.fs matches Some(t) && t@ == "fs_decal_vector"@),
        bucket == 0 || bucket == 1 || bucket == 4 || bucket > 6 ==> (p.fs matches Some(t) && t@
            == "fs_decal"@),
        bucket == 2 || bucket == 6 ==> (p.fs matches Some(t) && t@ == "fs_decal_multiply"@),
        bucket == 3 ==> (p.fs matches Some(t) && t@ == "fs_decal_premul"@),
{
}

/// The budget: no limit at 0, meshes without decorators never count, and a group is left out
/// exactly where the groups before it, drawn or not, already hold as many instances as the budget.
/// So the nearest group is always drawn, and no group is drawn behind one that is left out.
pub proof fn law_budget_is_spent_in_order(
    meshes: Seq<&GpuMesh>,
    order: Seq<usize>,
    budget: u32,
    i: int,
    j: int,
)
    requires
        0 <= i <= j,
    ensures
        cost_before(meshes, order, 0) == 0,
        cost_before(meshes, order, i + 1) - cost_before(meshes, order, i)
            == meshes[order[i] as int].deco_weight,
        budget == 0 ==> affords(meshes, order, budget, i),
        meshes[order[i] as int].deco_weight == 0 ==> affords(meshes, order, budget, i),
        affords(meshes, order, budget, 0),
        !affords(meshes, order, budget, i) ==> cost_before(meshes, order, i) >= budget,
        budget > 0 && meshes[order[i] as int].deco_weight > 0 && cost_before(meshes, order, i)
            >= budget ==> !affords(meshes, order, budget, i),
        !affords(meshes, order, budget, i) && meshes[order[j] as int].deco_weight > 0 ==> !affords(
            meshes,
            order,
            budget,
            j,
        ),
{
    lemma_cost_grows(meshes, order, i, j);
}

proof fn lemma_cost_grows(meshes: Seq<&GpuMesh>, order: Seq<usize>, i: int, j: int)
    requires
        0 <= i <= j,
    ensures
        cost_before(meshes, order, i) <= cost_before(meshes, order, j),
    decreases j,
{
    if i < j {
        lemma_cost_grows(meshes, order, i, j - 1);
    }
}

/// The foliage pass draws afforded meshes alone, each whole, in the given order; without a budget
/// it draws all of them.
pub proof fn law_only_afforded_meshes_are_drawn(
    meshes: Seq<&GpuMesh>,
    order: Seq<usize>,
    budget: u32,
    n: int,
    k: int,
)
    requires
        0 <= n <= order.len(),
        0 <= k < foliage_draws(meshes, order, budget, n).len(),
    ensures
        ({
            let d = foliage_draws(meshes, order, budget, n)[k];
            &&& d.pipeline == PipelineId::Foliage
            &&& d.list == 0
            &&& d.first == 0
            &&& d.count == meshes[d.mesh as int].instance_count
            &&& exists|i: int|
                k <= i < n && d.mesh == #[trigger] order[i] && affords(meshes, order, budget, i)
        }),
        budget == 0 ==> foliage_draws(meshes, order, budget, n).len() == n && foliage_draws(
            meshes,
            order,
            budget,
            n,
        )[k].mesh == order[k],
    decreases n,
{
    if n > 0 {
        let before = foliage_draws(meshes, order, budget, n - 1);
        lemma_foliage_count(meshes, order, budget, n - 1);
        if k < before.len() {
            law_only_afforded_meshes_are_drawn(meshes, order, budget, n - 1, k);
            let i = choose|i: int|
                k <= i < n - 1 && before[k].mesh == #[trigger] order[i] && affords(
                    meshes,
                    order,
                    budget,
                    i,
                );
            assert(k <= i < n && before[k].mesh == order[i]);
        } else {
            assert(order[n - 1] == foliage_draws(meshes, order, budget, n)[k].mesh);
        }
    }
}

proof fn lemma_foliage_count(meshes: Seq<&GpuMesh>, order: Seq<usize>, budget: u32, n: int)
    requires
        0 <= n,
    ensures
        foliage_draws(meshes, order, budget, n).len() <= n,
        budget == 0 ==> foliage_draws(meshes, order, budget, n).len() == n,
    decreases n,
{
    if n > 0 {
        lemma_foliage_count(meshes, order, budget, n - 1);
    }
}

/// A mesh is split exactly where it has several instances and all of them are kept. The draws of
/// its items then are its instances, one each and in order, sorted by the last column of their
/// placements; an unsplit mesh is one draw of everything, sorted by its centroid.
pub proof fn law_items_cover_a_mesh(
    lists: Seq<(Vec<&GpuMesh>, TransparentKind)>,
    list: int,
    mesh: int,
    k: int,
)
    requires
        0 <= list < lists.len() <= usize::MAX,
        0 <= mesh < lists[list].0@.len() <= usize::MAX,
        lists[list].0@[mesh].inst_raw@.len() <= u32::MAX,
        0 <= k < mesh_items(*lists[list].0@[mesh], list, mesh).len(),
    ensures
        ({
            let m = *lists[list].0@[mesh];
            let items = mesh_items(m, list, mesh);
            let it = items[k];
            let d = item_draw(lists, it);
            &&& it.list == list && it.mesh == mesh && d.list == list && d.mesh == mesh
            &&& m.instance_count > 1 && m.inst_raw@.len() == m.instance_count ==> {
                &&& items.len() == m.instance_count
                &&& d.first == k && d.count == 1
                &&& it.at.x == m.inst_raw@[k].model.w_axis.x
                &&& it.at.y == m.inst_raw@[k].model.w_axis.y
                &&& it.at.z == m.inst_raw@[k].model.w_axis.z
            }
            &&& m.instance_count <= 1 || m.inst_raw@.len() != m.instance_count ==> {
                &&& items.len() == 1
                &&& d.first == 0 && d.count == m.instance_count
                &&& it.at == m.centroid
            }
            &&& d.pipeline == transparent_route(lists[list].1, m.blend_mode)
        }),
{
}

// ---- the sorted passes ------------------------------------------------------------------------
/// What all sorted passes over a list have in common: every mesh is drawn once, whole.
pub open spec fn draws_each_once(out: Seq<Draw>, meshes: Seq<&GpuMesh>) -> bool {
    &&& out.len() == meshes.len()
    &&& forall|i: int|
        #![trigger out[i]]
        0 <= i < out.len() ==> {
            &&& out[i].list == 0
            &&& out[i].mesh < meshes.len()
            &&& out[i].first == 0
            &&& out[i].count == meshes[out[i].mesh as int].instance_count
        }
    &&& forall|i: int, j: int|
        0 <= i < j < out.len() ==> (#[trigger] out[i]).mesh != (#[trigger] out[j]).mesh
}

proof fn lemma_ordered_draws_each_once(
    out: Seq<Draw>,
    meshes: Seq<&GpuMesh>,
    keys: Seq<u64>,
    order: Seq<usize>,
    route: Seq<PipelineId>,
)
    requires
        sort::is_stable_order(keys, order),
        keys.len() == meshes.len(),
        meshes.len() <= usize::MAX,
        out == ordered_draws(meshes, order, route, meshes.len() as int),
    ensures
        draws_each_once(out, meshes),
        forall|i: int|
            0 <= i < out.len() ==> (#[trigger] out[i]).mesh == order[i] && out[i].pipeline
                == route[order[i] as int],
{
    assert forall|i: int, j: int| 0 <= i < j < out.len() implies (#[trigger] out[i]).mesh != (
    #[trigger] out[j]).mesh by {
        assert(sort::comes_before(keys, order[i], order[j]));
    }
}

/// Particles: every batch once, through the pipeline of its mode, nothing farther away than what
/// was drawn before it, and batches at one distance in the order they were given.
pub proof fn law_particles_are_drawn_far_to_near(
    out: Seq<Draw>,
    meshes: Seq<&GpuMesh>,
    d2: Seq<u32>,
    i: int,
    j: int,
)
    requires
        is_particle_pass(out, meshes, d2),
        d2.len() == meshes.len(),
        meshes.len() <= usize::MAX,
        0 <= i < j < out.len(),
        !f32bits::is_nan(d2[out[i].mesh as int]),
        !f32bits::is_nan(d2[out[j].mesh as int]),
    ensures
        draws_each_once(out, meshes),
        out[i].pipeline == particle_route(meshes[out[i].mesh as int].blend_mode),
        !f32bits::f32_less(d2[out[i].mesh as int], d2[out[j].mesh as int]),
        f32bits::f32_units(d2[out[i].mesh as int]) == f32bits::f32_units(d2[out[j].mesh as int])
            ==> out[i].mesh < out[j].mesh,
{
    let route = Seq::new(meshes.len(), |i: int| particle_route(meshes[i].blend_mode));
    let order = choose|order: Seq<usize>| #[trigger]
        sort::is_stable_order(far_keys(d2), order) && out == ordered_draws(
            meshes,
            order,
            route,
            meshes.len() as int,
        );
    lemma_ordered_draws_each_once(out, meshes, far_keys(d2), order, route);
    law_far_to_near(d2, order, i, j);
}

/// The sky: every segment once, through the pipeline of its value, the opaque ones before all
/// others, and within either group none larger than what was drawn before it.
pub proof fn law_sky_is_drawn_opaque_then_large_to_small(
    out: Seq<Draw>,
    segments: Seq<&GpuMesh>,
    blends: Seq<u8>,
    radii: Seq<u32>,
    legacy: bool,
    i: int,
    j: int,
)
    requires
        is_sky_pass(out, segments, blends, radii, legacy),
        blends.len() == segments.len(),
        radii.len() == segments.len(),
        segments.len() <= usize::MAX,
        0 <= i < j < out.len(),
        !f32bits::is_nan(radii[out[i].mesh as int]),
        !f32bits::is_nan(radii[out[j].mesh as int]),
    ensures
        draws_each_once(out, segments),
        out[i].pipeline == sky_route(blends[out[i].mesh as int], legacy),
        ({
            let (a, b) = (out[i].mesh as int, out[j].mesh as int);
            &&& blends[b] == 0 ==> blends[a] == 0
            &&& (blends[a] == 0 <==> blends[b] == 0) ==> !f32bits::f32_less(radii[a], radii[b])
            &&& (blends[a] == 0 <==> blends[b] == 0) && f32bits::f32_units(radii[a])
                == f32bits::f32_units(radii[b]) ==> a < b
        }),
{
    let route = Seq::new(segments.len(), |i: int| sky_route(blends[i], legacy));
    let order = choose|order: Seq<usize>| #[trigger]
        sort::is_stable_order(sky_keys(blends, radii), order) && out == ordered_draws(
            segments,
            order,
            route,
            segments.len() as int,
        );
    lemma_ordered_draws_each_once(out, segments, sky_keys(blends, radii), order, route);
    law_sky_order(blends, radii, order, i, j);
}

/// Decals: every one once, through the pipeline of its bucket, by ascending bucket and in the given
/// order within one.
pub proof fn law_decals_are_drawn_by_bucket(
    out: Seq<Draw>,
    decals: Seq<&GpuMesh>,
    buckets: Seq<u8>,
    i: int,
    j: int,
)
    requires
        is_decal_pass(out, decals, buckets),
        buckets.len() == decals.len(),
        decals.len() <= usize::MAX,
        0 <= i < j < out.len(),
    ensures
        draws_each_once(out, decals),
        out[i].pipeline == decal_route(buckets[out[i].mesh as int]),
        buckets[out[i].mesh as int] <= buckets[out[j].mesh as int],
        buckets[out[i].mesh as int] == buckets[out[j].mesh as int] ==> out[i].mesh < out[j].mesh,
{
    let route = Seq::new(decals.len(), |i: int| decal_route(buckets[i]));
    let order = choose|order: Seq<usize>| #[trigger]
        sort::is_stable_order(bucket_keys(buckets), order) && out == ordered_draws(
            decals,
            order,
            route,
            decals.len() as int,
        );
    lemma_ordered_draws_each_once(out, decals, bucket_keys(buckets), order, route);
    law_decal_order(buckets, order, i, j);
}

/// Transparent draws: all items, and of any two draws the first stands for an item that is no
/// nearer than the second's, items at one distance in the order of the list.
pub proof fn law_transparent_items_are_drawn_far_to_near(
    out: Seq<Draw>,
    lists: Seq<(Vec<&GpuMesh>, TransparentKind)>,
    items: Seq<Item>,
    d2: Seq<u32>,
    i: int,
    j: int,
)
    requires
        is_transparent_pass(out, lists, items, d2),
        d2.len() == items.len(),
        items.len() <= usize::MAX,
        forall|k: int| 0 <= k < d2.len() ==> !f32bits::is_nan(#[trigger] d2[k]),
        0 <= i < j < out.len(),
    ensures
        out.len() == items.len(),
        exists|a: int, b: int|
            #![trigger d2[a], d2[b]]
            {
                &&& 0 <= a < items.len() && 0 <= b < items.len() && a != b
                &&& out[i] == item_draw(lists, items[a])
                &&& out[j] == item_draw(lists, items[b])
                &&& !f32bits::f32_less(d2[a], d2[b])
                &&& f32bits::f32_units(d2[a]) == f32bits::f32_units(d2[b]) ==> a < b
            },
{
    let order = choose|order: Seq<usize>| #[trigger]
        sort::is_stable_order(far_keys(d2), order) && out == Seq::new(
            items.len(),
            |i: int| item_draw(lists, items[order[i] as int]),
        );
    let (a, b) = (order[i] as int, order[j] as int);
    assert(sort::comes_before(far_keys(d2), order[i], order[j]));
    assert(!f32bits::is_nan(d2[a]) && !f32bits::is_nan(d2[b]));
    law_far_to_near(d2, order, i, j);
}

/// Every transparent item is drawn.
pub proof fn law_every_item_is_drawn(
    out: Seq<Draw>,
    lists: Seq<(Vec<&GpuMesh>, TransparentKind)>,
    items: Seq<Item>,
    d2: Seq<u32>,
    a: int,
)
    requires
        is_transparent_pass(out, lists, items, d2),
        d2.len() == items.len(),
        items.len() <= usize::MAX,
        0 <= a < items.len(),
    ensures
        out.contains(item_draw(lists, items[a])),
{
    let order = choose|order: Seq<usize>| #[trigger]
        sort::is_stable_order(far_keys(d2), order) && out == Seq::new(
            items.len(),
            |i: int| item_draw(lists, items[order[i] as int]),
        );
    let k = a as usize;
    assert(order.contains(k));
    let i = choose|i: int| 0 <= i < order.len() && order[i] == k;
    assert(out[i] == item_draw(lists, items[a]));
}

proof fn lemma_foliage_places(
    meshes: Seq<&GpuMesh>,
    order: Seq<usize>,
    budget: u32,
    n: int,
    i: int,
    j: int,
)
    requires
        0 <= n <= order.len(),
        0 <= i < j < foliage_draws(meshes, order, budget, n).len(),
    ensures
        exists|a: int, b: int|
            #![trigger order[a], order[b]]
            0 <= a < b < n && foliage_draws(meshes, order, budget, n)[i].mesh == order[a]
                && foliage_draws(meshes, order, budget, n)[j].mesh == order[b],
    decreases n,
{
    if n > 0 {
        let before = foliage_draws(meshes, order, budget, n - 1);
        let all = foliage_draws(meshes, order, budget, n);
        if j < before.len() {
            lemma_foliage_places(meshes, order, budget, n - 1, i, j);
            let (a, b) = choose|a: int, b: int|
                #![trigger order[a], order[b]]
                0 <= a < b < n - 1 && before[i].mesh == order[a] && before[j].mesh == order[b];
            assert(all[i].mesh == order[a] && all[j].mesh == order[b]);
        } else {
            law_only_afforded_meshes_are_drawn(meshes, order, budget, n - 1, i);
            let a = choose|a: int|
                i <= a < n - 1 && before[i].mesh == #[trigger] order[a] && affords(
                    meshes,
                    order,
                    budget,
                    a,
                );
            assert(all[i].mesh == order[a] && all[j].mesh == order[n - 1]);
        }
    }
}

/// Foliage: each mesh at most once and whole, nothing nearer than what was drawn before it; without
/// a budget every mesh, and whatever the budget every mesh that carries no decorators.
pub proof fn law_foliage_is_drawn_near_to_far(
    out: Seq<Draw>,
    meshes: Seq<&GpuMesh>,
    d2: Seq<u32>,
    budget: u32,
    i: int,
    j: int,
)
    requires
        is_foliage_pass(out, meshes, d2, budget),
        d2.len() == meshes.len(),
        meshes.len() <= usize::MAX,
        0 <= i < j < out.len(),
        !f32bits::is_nan(d2[out[i].mesh as int]),
        !f32bits::is_nan(d2[out[j].mesh as int]),
    ensures
        out[i].mesh < meshes.len(),
        out[i].mesh != out[j].mesh,
        out[i].pipeline == PipelineId::Foliage,
        out[i].first == 0 && out[i].count == meshes[out[i].mesh as int].instance_count,
        !f32bits::f32_less(d2[out[j].mesh as int], d2[out[i].mesh as int]),
        f32bits::f32_units(d2[out[i].mesh as int]) == f32bits::f32_units(d2[out[j].mesh as int])
            ==> out[i].mesh < out[j].mesh,
        budget == 0 ==> out.len() == meshes.len(),
{
    let n = meshes.len() as int;
    let order = choose|order: Seq<usize>| #[trigger]
        sort::is_stable_order(near_keys(d2), order) && out == foliage_draws(
            meshes,
            order,
            budget,
            n,
        );
    lemma_foliage_places(meshes, order, budget, n, i, j);
    law_only_afforded_meshes_are_drawn(meshes, order, budget, n, i);
    let (a, b) = choose|a: int, b: int|
        #![trigger order[a], order[b]]
        0 <= a < b < n && out[i].mesh == order[a] && out[j].mesh == order[b];
    assert(sort::comes_before(near_keys(d2), order[a], order[b]));
    law_near_to_far(d2, order, a, b);
}

/// Meshes without decorators are drawn whatever the budget, and without a budget everything is.
pub proof fn law_foliage_without_decorators_is_drawn(
    out: Seq<Draw>,
    meshes: Seq<&GpuMesh>,
    d2: Seq<u32>,
    budget: u32,
    m: int,
)
    requires
        is_foliage_pass(out, meshes, d2, budget),
        d2.len() == meshes.len(),
        meshes.len() <= usize::MAX,
        0 <= m < meshes.len(),
        budget == 0 || meshes[m].deco_weight == 0,
    ensures
        exists|i: int| 0 <= i < out.len() && (#[trigger] out[i]).mesh == m,
{
    let n = meshes.len() as int;
    let order = choose|order: Seq<usize>| #[trigger]
        sort::is_stable_order(near_keys(d2), order) && out == foliage_draws(
            meshes,
            order,
            budget,
            n,
        );
    let k = m as usize;
    assert(order.contains(k));
    let a = choose|a: int| 0 <= a < order.len() && order[a] == k;
    law_afforded_meshes_are_drawn(meshes, order, budget, n, a);
    let want = whole(*meshes[m], PipelineId::Foliage, 0, m);
    let i = choose|i: int| 0 <= i < out.len() && out[i] == want;
    assert(out[i].mesh == m);
}

/// Passes over several lists draw them one behind the other, each in list order.
pub proof fn law_batches_come_in_order(
    lists: Seq<Vec<&GpuMesh>>,
    pipeline: PipelineId,
    pick: Pick,
    base: int,
    n: int,
    i: int,
    j: int,
)
    requires
        0 <= n <= lists.len(),
        0 <= base,
        base + lists.len() <= usize::MAX,
        0 <= i < j < lists_draws(lists, pipeline, pick, base, n).len(),
    ensures
        ({
            let (a, b) = (
                lists_draws(lists, pipeline, pick, base, n)[i],
                lists_draws(lists, pipeline, pick, base, n)[j],
            );
            a.list < b.list || (a.list == b.list && a.mesh < b.mesh)
        }),
    decreases n,
{
    if n > 0 {
        let before = lists_draws(lists, pipeline, pick, base, n - 1);
        let v = lists[n - 1];
        assert(v@.len() == v.len());
        let len = v@.len() as int;
        if j < before.len() {
            law_batches_come_in_order(lists, pipeline, pick, base, n - 1, i, j);
        } else {
            law_list_draws_are_whole(v@, pipeline, pick, base + n - 1, len, j - before.len());
            if i < before.len() {
                law_batch_draws_are_whole(lists, pipeline, pick, base, n - 1, i);
            } else {
                law_list_draws_are_whole(v@, pipeline, pick, base + n - 1, len, i - before.len());
                let own = draws_of(v@, pipeline, pick, base + n - 1, len);
                assert(own[i - before.len()].mesh < own[j - before.len()].mesh);
            }
        }
    }
}

/// Both shadow passes draw their lists in order, the sun's dynamic ones before the static ones, and
/// through their own pipelines.
pub proof fn law_shadow_lists_come_in_order(
    dynamic: Seq<Vec<&GpuMesh>>,
    fixed: Seq<Vec<&GpuMesh>>,
    all: bool,
    i: int,
    j: int,
)
    requires
        dynamic.len() + fixed.len() <= usize::MAX,
        0 <= i < j,
    ensures
        j < shadow_pass(dynamic).len() ==> {
            let (a, b) = (shadow_pass(dynamic)[i], shadow_pass(dynamic)[j]);
            &&& a.pipeline == PipelineId::Shadow && b.pipeline == PipelineId::Shadow
            &&& a.list < b.list || (a.list == b.list && a.mesh < b.mesh)
        },
        j < sun_pass(dynamic, fixed, all).len() ==> {
            let (a, b) = (sun_pass(dynamic, fixed, all)[i], sun_pass(dynamic, fixed, all)[j]);
            &&& a.pipeline == PipelineId::ShadowH4 && b.pipeline == PipelineId::ShadowH4
            &&& a.list < b.list || (a.list == b.list && a.mesh < b.mesh)
        },
{
    let n = dynamic.len() as int;
    let m = fixed.len() as int;
    if j < shadow_pass(dynamic).len() {
        law_batches_come_in_order(dynamic, PipelineId::Shadow, Pick::Casters, 0, n, i, j);
        law_batch_draws_are_whole(dynamic, PipelineId::Shadow, Pick::Casters, 0, n, i);
        law_batch_draws_are_whole(dynamic, PipelineId::Shadow, Pick::Casters, 0, n, j);
    }
    if j < sun_pass(dynamic, fixed, all).len() {
        let pick = if all {
            Pick::Casters
        } else {
            Pick::FlaggedCasters
        };
        let h4 = PipelineId::ShadowH4;
        let first = lists_draws(dynamic, h4, Pick::Casters, 0, n);
        let k = first.len() as int;
        if i < k {
            law_batch_draws_are_whole(dynamic, h4, Pick::Casters, 0, n, i);
        } else {
            law_batch_draws_are_whole(fixed, h4, pick, n, m, i - k);
        }
        if j < k {
            law_batch_draws_are_whole(dynamic, h4, Pick::Casters, 0, n, j);
            law_batches_come_in_order(dynamic, h4, Pick::Casters, 0, n, i, j);
        } else {
            law_batch_draws_are_whole(fixed, h4, pick, n, m, j - k);
            if i >= k {
                law_batches_come_in_order(fixed, h4, pick, n, m, i - k, j - k);
            }
        }
    }
}

/// Items come list by list, mesh by mesh and instance by instance, so that what lies at one distance
/// keeps that order.
pub proof fn law_items_come_in_list_order(
    lists: Seq<(Vec<&GpuMesh>, TransparentKind)>,
    n: int,
    i: int,
    j: int,
)
    requires
        0 <= n <= lists.len() <= usize::MAX,
        0 <= i < j < items_of(lists, n).len(),
    ensures
        ({
            let (a, b) = (items_of(lists, n)[i], items_of(lists, n)[j]);
            &&& a.list < n && b.list < n
            &&& a.list < b.list || (a.list == b.list && a.mesh <= b.mesh)
        }),
    decreases n,
{
    if n > 0 {
        let before = items_of(lists, n - 1);
        let v = lists[n - 1].0;
        assert(v@.len() == v.len());
        let len = v@.len() as int;
        if i < before.len() {
            lemma_item_list(lists, n - 1, i);
        } else {
            lemma_list_items_in(v@, n - 1, len, i - before.len());
        }
        if j < before.len() {
            law_items_come_in_list_order(lists, n - 1, i, j);
        } else {
            lemma_list_items_in(v@, n - 1, len, j - before.len());
            if i >= before.len() {
                lemma_list_items_ascend(v@, n - 1, len, i - before.len(), j - before.len());
            }
        }
    }
}

proof fn lemma_item_list(lists: Seq<(Vec<&GpuMesh>, TransparentKind)>, n: int, i: int)
    requires
        0 <= n <= lists.len() <= usize::MAX,
        0 <= i < items_of(lists, n).len(),
    ensures
        items_of(lists, n)[i].list < n,
    decreases n,
{
    if n > 0 {
        let before = items_of(lists, n - 1);
        if i < before.len() {
            lemma_item_list(lists, n - 1, i);
        } else {
            let v = lists[n - 1].0;
            assert(v@.len() == v.len());
            lemma_list_items_in(v@, n - 1, v@.len() as int, i - before.len());
        }
    }
}

proof fn lemma_list_items_ascend(meshes: Seq<&GpuMesh>, list: int, n: int, i: int, j: int)
    requires
        0 <= n <= meshes.len() <= usize::MAX,
        0 <= list <= usize::MAX,
        0 <= i < j < list_items(meshes, list, n).len(),
    ensures
        list_items(meshes, list, n)[i].mesh <= list_items(meshes, list, n)[j].mesh,
    decreases n,
{
    if n > 0 {
        let before = list_items(meshes, list, n - 1);
        if j < before.len() {
            lemma_list_items_ascend(meshes, list, n - 1, i, j);
        } else if i < before.len() {
            lemma_list_items_in(meshes, list, n - 1, i);
        }
    }
}

} // verus!
