//! Real-time probe global illumination: the state behind the probe grid.
//!
//! A regular grid of light probes covers the level. A compute pass updates the probes slice by
//! slice and blends each result into two per-probe records: irradiance coefficients, and an
//! octahedral visibility map. This module sizes the grid and its records, packs the parameters of
//! each pass, and decides which probes a pass updates and with which weight.

use crate::config;
use crate::f32bits;
use crate::f32bits::{F32_ONE, F32_TWO};
use crate::words::{words_of, zero4, Vec3, Vec4};
use vstd::prelude::*;

verus! {

/// Octahedral visibility map resolution per probe (texels per side).
pub const VIS_RES: u32 = 8;

/// Visibility texels per probe.
pub const VIS_TEXELS: u32 = 64;

/// Four-lane slots per probe: nine irradiance coefficients, then the relocation offset with the
/// valid flag in its last lane.
pub const SH_N: u32 = 10;

/// Hard cap on the probe count (the update dispatch is one workgroup per probe).
pub const MAX_PROBES: u32 = 32_768;

/// Bytes of one flat hierarchy node.
pub const NODE_BYTES: usize = 32;

/// Bytes of one reordered triangle.
pub const TRI_BYTES: usize = 48;

/// Temporal hysteresis when nothing is set: 0.92.
pub const DEFAULT_HYSTERESIS: u32 = 0x3f6b_851f;

/// Largest temporal hysteresis: 0.99.
pub const MAX_HYSTERESIS: u32 = 0x3f7d_70a4;

/// Energy scale when nothing is set: 1.3.
pub const DEFAULT_GAIN: u32 = 0x3fa6_6666;

/// Smallest and largest energy scale that can be set later: 0.01 and 16.
pub const MIN_GAIN: u32 = 0x3c23_d70a;

pub const MAX_GAIN: u32 = 0x4180_0000;

/// Factor for downward sky misses when nothing is set: 0.25.
pub const DEFAULT_GROUND: u32 = 0x3e80_0000;

/// Emitter samples per hit: at most 64.
pub const MAX_NEE: u32 = 0x4280_0000;

/// Per-sample irradiance cap when nothing is set: 12.
pub const DEFAULT_CAP: u32 = 0x4140_0000;

/// Smallest per-sample irradiance cap: 0.1.
pub const MIN_CAP: u32 = 0x3dcc_cccd;

/// Emitter margin when nothing is set: 0.05.
pub const DEFAULT_NEE_MARGIN: u32 = 0x3d4c_cccd;

/// Normal bias 0.2, view bias 0.3 and visibility range 1.5, in probe spacings.
pub const NORMAL_BIAS: u32 = 0x3e4c_cccd;

pub const VIEW_BIAS: u32 = 0x3e99_999a;

pub const VIS_RANGE: u32 = 0x3fc0_0000;

/// 0.5, the albedo of the placeholder material.
pub const HALF: u32 = 0x3f00_0000;

/// Probes per axis.
#[derive(Clone, Copy, Debug, PartialEq, Eq, Structural)]
pub struct Dims {
    pub nx: u32,
    pub ny: u32,
    pub nz: u32,
}

impl Dims {
    /// Number of probes in the grid.
    pub open spec fn count(self) -> int {
        self.nx * self.ny * self.nz
    }

    /// Number of the probe in column `x`, row `y`, layer `z`.
    pub open spec fn index(self, x: int, y: int, z: int) -> int {
        x + y * self.nx + z * (self.nx * self.ny)
    }

    pub open spec fn holds(self, x: int, y: int, z: int) -> bool {
        0 <= x < self.nx && 0 <= y < self.ny && 0 <= z < self.nz
    }
}

/// Every grid position has a number below the probe count.
pub proof fn law_probe_index_is_in_range(d: Dims, x: int, y: int, z: int)
    requires
        d.holds(x, y, z),
    ensures
        0 <= d.index(x, y, z) < d.count(),
{
    let (nx, ny, nz) = (d.nx as int, d.ny as int, d.nz as int);
    let layer = nx * ny;
    assert(x + y * nx < layer && y * nx >= 0) by (nonlinear_arith)
        requires
            0 <= x < nx,
            0 <= y < ny,
            layer == nx * ny,
    ;
    assert(z * layer + layer <= nz * layer && z * layer >= 0) by (nonlinear_arith)
        requires
            0 <= z < nz,
            layer >= 0,
    ;
    assert(nz * layer == d.count()) by (nonlinear_arith)
        requires
            layer == nx * ny,
            d.count() == nx * ny * nz,
    ;
}

/// No two grid positions share a number.
pub proof fn law_probe_index_is_injective(
    d: Dims,
    x: int,
    y: int,
    z: int,
    u: int,
    v: int,
    w: int,
)
    requires
        d.holds(x, y, z),
        d.holds(u, v, w),
        d.index(x, y, z) == d.index(u, v, w),
    ensures
        x == u && y == v && z == w,
{
    let (nx, ny) = (d.nx as int, d.ny as int);
    let layer = nx * ny;
    let (a, b) = (x + y * nx, u + v * nx);
    assert(0 <= a < layer && 0 <= b < layer) by (nonlinear_arith)
        requires
            0 <= x < nx,
            0 <= y < ny,
            0 <= u < nx,
            0 <= v < ny,
            layer == nx * ny,
            a == x + y * nx,
            b == u + v * nx,
    ;
    assert(z == w) by (nonlinear_arith)
        requires
            a + z * layer == b + w * layer,
            0 <= a < layer,
            0 <= b < layer,
    ;
    assert(y == v) by (nonlinear_arith)
        requires
            x + y * nx == u + v * nx,
            0 <= x < nx,
            0 <= u < nx,
    ;
}

/// Parameters of one update pass and of the shading lookup, in the order the GPU reads them.
#[derive(Clone, Copy, Debug, PartialEq, Eq, Structural)]
pub struct GiParams {
    /// grid origin, probe spacing
    pub origin: Vec4,
    /// probes per axis, mode (0 = off, 1 = on)
    pub dims: Vec4,
    /// direction to the sun, whether the sky comes from the captured cube
    pub sun_dir: Vec4,
    /// sun radiance, cube gain
    pub sun_color: Vec4,
    /// sky radiance for escaped rays, factor for downward misses
    pub sky_color: Vec4,
    /// frame, rays per thread, node count, triangle count
    pub misc: Vec4,
    /// light count, emitter count, probe count, first probe of the slice
    pub misc2: Vec4,
    /// fog density, fog top, total emitter weight, temporal blend weight
    pub fog: Vec4,
    /// normal bias, view bias, visibility range, energy scale
    pub bias: Vec4,
    /// emitter samples per hit, per-sample cap, margin, unused
    pub nee: Vec4,
}

impl GiParams {
    pub open spec fn lanes(self) -> Seq<Vec4> {
        seq![
            self.origin,
            self.dims,
            self.sun_dir,
            self.sun_color,
            self.sky_color,
            self.misc,
            self.misc2,
            self.fog,
            self.bias,
            self.nee,
        ]
    }

    /// The parameter block as words: ten four-lane vectors, forty words.
    pub fn words(&self) -> (out: Vec<u32>)
        ensures
            out@ == crate::words::lane_words(self.lanes()),
            out@.len() == 40,
    {
        let lanes: Vec<Vec4> = vec![
            self.origin,
            self.dims,
            self.sun_dir,
            self.sun_color,
            self.sky_color,
            self.misc,
            self.misc2,
            self.fog,
            self.bias,
            self.nee,
        ];
        assert(lanes@ =~= self.lanes());
        words_of(&lanes)
    }
}

/// The parameters before a scene is set: one probe, lookups off.
pub open spec fn initial_params() -> GiParams {
    GiParams {
        origin: Vec4 { x: 0, y: 0, z: 0, w: F32_ONE },
        dims: Vec4 { x: 1, y: 1, z: 1, w: 0 },
        sun_dir: Vec4 { x: 0, y: 0, z: F32_ONE, w: 0 },
        sun_color: zero4(),
        sky_color: Vec4 { x: 0, y: 0, z: 0, w: DEFAULT_GROUND },
        misc: Vec4 { x: 0, y: 1, z: 0, w: 0 },
        misc2: Vec4 { x: 0, y: 0, z: 1, w: 0 },
        fog: Vec4 { x: 0, y: 0, z: 0, w: F32_ONE },
        bias: Vec4 { x: NORMAL_BIAS, y: VIEW_BIAS, z: VIS_RANGE, w: F32_ONE },
        nee: Vec4 { x: F32_TWO, y: DEFAULT_CAP, z: 0, w: 0 },
    }
}

impl Default for GiParams {
    fn default() -> (p: Self)
        ensures
            p == initial_params(),
    {
        GiParams {
            origin: Vec4 { x: 0, y: 0, z: 0, w: F32_ONE },
            dims: Vec4 { x: 1, y: 1, z: 1, w: 0 },
            sun_dir: Vec4 { x: 0, y: 0, z: F32_ONE, w: 0 },
            sun_color: zero4(),
            sky_color: Vec4 { x: 0, y: 0, z: 0, w: DEFAULT_GROUND },
            misc: Vec4 { x: 0, y: 1, z: 0, w: 0 },
            misc2: Vec4 { x: 0, y: 0, z: 1, w: 0 },
            fog: Vec4 { x: 0, y: 0, z: 0, w: F32_ONE },
            bias: Vec4 { x: NORMAL_BIAS, y: VIEW_BIAS, z: VIS_RANGE, w: F32_ONE },
            nee: Vec4 { x: F32_TWO, y: DEFAULT_CAP, z: 0, w: 0 },
        }
    }
}

/// One scenario light, four vectors.
#[derive(Clone, Copy, Debug, PartialEq, Eq, Structural)]
pub struct GpuLight {
    /// position, range
    pub pos: Vec4,
    /// colour, sphere share
    pub color: Vec4,
    /// direction, cosine of the cutoff angle
    pub dir: Vec4,
    /// angle ratio, angle power, far end, far ratio
    pub falloff: Vec4,
}

/// One emissive triangle, four vectors.
#[derive(Clone, Copy, Debug, PartialEq, Eq, Structural)]
pub struct GpuEmitter {
    pub v0: Vec4,
    pub v1: Vec4,
    pub v2: Vec4,
    /// radiance
    pub rad: Vec4,
}

pub open spec fn no_light() -> GpuLight {
    GpuLight { pos: zero4(), color: zero4(), dir: zero4(), falloff: zero4() }
}

pub open spec fn no_emitter() -> GpuEmitter {
    GpuEmitter { v0: zero4(), v1: zero4(), v2: zero4(), rad: zero4() }
}

impl Default for GpuLight {
    fn default() -> (l: Self)
        ensures
            l == no_light(),
    {
        GpuLight { pos: zero4(), color: zero4(), dir: zero4(), falloff: zero4() }
    }
}

impl Default for GpuEmitter {
    fn default() -> (e: Self)
        ensures
            e == no_emitter(),
    {
        GpuEmitter { v0: zero4(), v1: zero4(), v2: zero4(), rad: zero4() }
    }
}

/// The vectors of a list of lights, four per light.
pub open spec fn light_lanes(ls: Seq<GpuLight>) -> Seq<Vec4> {
    Seq::new(
        4 * ls.len(),
        |n: int|
            if n % 4 == 0 {
                ls[n / 4].pos
            } else if n % 4 == 1 {
                ls[n / 4].color
            } else if n % 4 == 2 {
                ls[n / 4].dir
            } else {
                ls[n / 4].falloff
            },
    )
}

/// The vectors of a list of emitters, four per emitter.
pub open spec fn emitter_lanes(es: Seq<GpuEmitter>) -> Seq<Vec4> {
    Seq::new(
        4 * es.len(),
        |n: int|
            if n % 4 == 0 {
                es[n / 4].v0
            } else if n % 4 == 1 {
                es[n / 4].v1
            } else if n % 4 == 2 {
                es[n / 4].v2
            } else {
                es[n / 4].rad
            },
    )
}

fn light_vectors(ls: &Vec<GpuLight>) -> (out: Vec<Vec4>)
    ensures
        out@ == light_lanes(ls@),
{
    let mut out: Vec<Vec4> = Vec::new();
    let mut i: usize = 0;
    while i < ls.len()
        invariant
            i <= ls@.len(),
            out@ == light_lanes(ls@.take(i as int)),
        decreases ls@.len() - i,
    {
        let l: GpuLight = ls[i];
        out.push(l.pos);
        out.push(l.color);
        out.push(l.dir);
        out.push(l.falloff);
        proof {
            let next = light_lanes(ls@.take(i + 1));
            assert forall|n: int| 0 <= n < next.len() implies out@[n] == next[n] by {
                if n < 4 * i {
                    assert(n / 4 < i);
                } else {
                    assert(n / 4 == i);
                }
            }
            assert(out@ =~= next);
        }
        i = i + 1;
    }
    assert(ls@.take(ls@.len() as int) =~= ls@);
    out
}

fn emitter_vectors(es: &Vec<GpuEmitter>) -> (out: Vec<Vec4>)
    ensures
        out@ == emitter_lanes(es@),
{
    let mut out: Vec<Vec4> = Vec::new();
    let mut i: usize = 0;
    while i < es.len()
        invariant
            i <= es@.len(),
            out@ == emitter_lanes(es@.take(i as int)),
        decreases es@.len() - i,
    {
        let e: GpuEmitter = es[i];
        out.push(e.v0);
        out.push(e.v1);
        out.push(e.v2);
        out.push(e.rad);
        proof {
            let next = emitter_lanes(es@.take(i + 1));
            assert forall|n: int| 0 <= n < next.len() implies out@[n] == next[n] by {
                if n < 4 * i {
                    assert(n / 4 < i);
                } else {
                    assert(n / 4 == i);
                }
            }
            assert(out@ =~= next);
        }
        i = i + 1;
    }
    assert(es@.take(es@.len() as int) =~= es@);
    out
}

/// A record of lights as the tracer declares it: sixteen words per light, at 0 its position and
/// range, at 4 its colour and sphere share, at 8 its direction and cutoff, at 12 its falloff.
pub open spec fn holds_lights(record: Seq<u32>, ls: Seq<GpuLight>) -> bool {
    &&& record.len() == 16 * ls.len()
    &&& forall|i: int|
        #![trigger ls[i]]
        0 <= i < ls.len() ==> {
            &&& crate::words::lanes_at(record, 16 * i, ls[i].pos)
            &&& crate::words::lanes_at(record, 16 * i + 4, ls[i].color)
            &&& crate::words::lanes_at(record, 16 * i + 8, ls[i].dir)
            &&& crate::words::lanes_at(record, 16 * i + 12, ls[i].falloff)
        }
}

/// A record of emitters as the tracer declares it: sixteen words per triangle, its three corners
/// and then its radiance.
pub open spec fn holds_emitters(record: Seq<u32>, es: Seq<GpuEmitter>) -> bool {
    &&& record.len() == 16 * es.len()
    &&& forall|i: int|
        #![trigger es[i]]
        0 <= i < es.len() ==> {
            &&& crate::words::lanes_at(record, 16 * i, es[i].v0)
            &&& crate::words::lanes_at(record, 16 * i + 4, es[i].v1)
            &&& crate::words::lanes_at(record, 16 * i + 8, es[i].v2)
            &&& crate::words::lanes_at(record, 16 * i + 12, es[i].rad)
        }
}

/// Four vectors in a row fill sixteen words in a row.
proof fn lemma_record_of_four(vs: Seq<Vec4>, i: int)
    requires
        0 <= i,
        4 * i + 3 < vs.len(),
    ensures
        crate::words::lanes_at(crate::words::lane_words(vs), 16 * i, vs[4 * i]),
        crate::words::lanes_at(crate::words::lane_words(vs), 16 * i + 4, vs[4 * i + 1]),
        crate::words::lanes_at(crate::words::lane_words(vs), 16 * i + 8, vs[4 * i + 2]),
        crate::words::lanes_at(crate::words::lane_words(vs), 16 * i + 12, vs[4 * i + 3]),
{
    crate::words::law_vectors_follow_each_other(vs, 4 * i);
    crate::words::law_vectors_follow_each_other(vs, 4 * i + 1);
    crate::words::law_vectors_follow_each_other(vs, 4 * i + 2);
    crate::words::law_vectors_follow_each_other(vs, 4 * i + 3);
}

/// Every field of every light reaches the words where the tracer reads it.
pub proof fn law_light_records(ls: Seq<GpuLight>)
    ensures
        holds_lights(crate::words::lane_words(light_lanes(ls)), ls),
{
    let vs = light_lanes(ls);
    assert forall|i: int|
        #![trigger ls[i]]
        0 <= i < ls.len() implies {
        let record = crate::words::lane_words(vs);
        &&& crate::words::lanes_at(record, 16 * i, ls[i].pos)
        &&& crate::words::lanes_at(record, 16 * i + 4, ls[i].color)
        &&& crate::words::lanes_at(record, 16 * i + 8, ls[i].dir)
        &&& crate::words::lanes_at(record, 16 * i + 12, ls[i].falloff)
    } by {
        let (a, b, c, d) = (4 * i, 4 * i + 1, 4 * i + 2, 4 * i + 3);
        assert(a / 4 == i && a % 4 == 0 && b / 4 == i && b % 4 == 1);
        assert(c / 4 == i && c % 4 == 2 && d / 4 == i && d % 4 == 3);
        lemma_record_of_four(vs, i);
    }
}

/// Every field of every emitter reaches the words where the tracer reads it.
pub proof fn law_emitter_records(es: Seq<GpuEmitter>)
    ensures
        holds_emitters(crate::words::lane_words(emitter_lanes(es)), es),
{
    let vs = emitter_lanes(es);
    assert forall|i: int|
        #![trigger es[i]]
        0 <= i < es.len() implies {
        let record = crate::words::lane_words(vs);
        &&& crate::words::lanes_at(record, 16 * i, es[i].v0)
        &&& crate::words::lanes_at(record, 16 * i + 4, es[i].v1)
        &&& crate::words::lanes_at(record, 16 * i + 8, es[i].v2)
        &&& crate::words::lanes_at(record, 16 * i + 12, es[i].rad)
    } by {
        let (a, b, c, d) = (4 * i, 4 * i + 1, 4 * i + 2, 4 * i + 3);
        assert(a / 4 == i && a % 4 == 0 && b / 4 == i && b % 4 == 1);
        assert(c / 4 == i && c % 4 == 2 && d / 4 == i && d % 4 == 3);
        lemma_record_of_four(vs, i);
    }
}

/// Everything the probe tracer needs about a map.
pub struct RtGiScene {
    /// Flat hierarchy nodes and reordered triangles, as bytes.
    pub nodes: Vec<u8>,
    pub tris: Vec<u8>,
    /// Per triangle: index of its material.
    pub tri_mat: Vec<u32>,
    /// Three vectors per material: albedo and flags, self-illumination, transmission tint.
    pub mats: Vec<Vec4>,
    pub lights: Vec<GpuLight>,
    pub emitters: Vec<GpuEmitter>,
    pub total_emitter_weight: u32,
    /// World bounds of the occluders that are not sky: the grid covers this box.
    pub bounds_min: Vec3,
    pub bounds_max: Vec3,
    pub sun_dir: Vec3,
    pub sun_color: Vec3,
    pub sky_color: Vec3,
    pub fog_sigma: u32,
    pub fog_top: u32,
}

/// Colours of a scene after the configured scales were applied to them.
#[derive(Clone, Copy, Debug, PartialEq, Eq, Structural)]
pub struct ScaledSky {
    pub sun_color: Vec3,
    pub sky_color: Vec3,
    /// gain of the captured sky cube
    pub cube_gain: u32,
}

/// Numbers that the environment may override; `None` where nothing readable is set.
#[derive(Clone, Copy, Debug, PartialEq, Eq, Structural)]
pub struct Tuning {
    pub gain: Option<u32>,
    pub ground: Option<u32>,
    pub nee: Option<u32>,
    pub cap: Option<u32>,
    pub nee_margin: Option<u32>,
    /// Leave the captured sky cube unused.
    pub no_cube: bool,
}

pub open spec fn or_default(v: Option<u32>, default: u32) -> u32 {
    match v {
        Some(x) => x,
        None => default,
    }
}

fn value_or(v: Option<u32>, default: u32) -> (r: u32)
    ensures
        r == or_default(v, default),
{
    match v {
        Some(x) => x,
        None => default,
    }
}

/// What a scene brings to the GPU: the records to upload and the sizes of the probe buffers.
pub struct ScenePlan {
    pub tri_mat: Vec<u32>,
    pub mats: Vec<u32>,
    pub lights: Vec<u32>,
    pub emitters: Vec<u32>,
    pub probe_bytes: u64,
    pub vis_bytes: u64,
    /// What is bound to each slot of the probe update.
    pub bindings: Vec<ProbeBinding>,
}

/// What the probe update reads and writes.
#[derive(Clone, Copy, Debug, PartialEq, Eq, Structural)]
pub enum ProbeResource {
    Nodes,
    Tris,
    TriMat,
    Mats,
    Lights,
    Emitters,
    Params,
    Probes,
    Visibility,
    /// The captured sky, or a blank cube where there is none, and the sampler that goes with it.
    SkyCube { captured: bool },
    SkySampler { captured: bool },
}

#[derive(Clone, Copy, Debug, PartialEq, Eq, Structural)]
pub struct ProbeBinding {
    pub binding: u32,
    pub resource: ProbeResource,
}

/// The resources of the probe update, by slot.
pub open spec fn probe_slots(captured: bool) -> Seq<ProbeBinding> {
    seq![
        ProbeBinding { binding: 0, resource: ProbeResource::Nodes },
        ProbeBinding { binding: 1, resource: ProbeResource::Tris },
        ProbeBinding { binding: 2, resource: ProbeResource::TriMat },
        ProbeBinding { binding: 3, resource: ProbeResource::Mats },
        ProbeBinding { binding: 4, resource: ProbeResource::Lights },
        ProbeBinding { binding: 5, resource: ProbeResource::Emitters },
        ProbeBinding { binding: 6, resource: ProbeResource::Params },
        ProbeBinding { binding: 7, resource: ProbeResource::Probes },
        ProbeBinding { binding: 8, resource: ProbeResource::Visibility },
        ProbeBinding { binding: 9, resource: ProbeResource::SkyCube { captured } },
        ProbeBinding { binding: 10, resource: ProbeResource::SkySampler { captured } },
    ]
}

/// What is bound to each slot of the probe update, with the captured sky or without.
pub fn probe_bindings(captured: bool) -> (b: Vec<ProbeBinding>)
    ensures
        b@ == probe_slots(captured),
{
    let b: Vec<ProbeBinding> = vec![
        ProbeBinding { binding: 0, resource: ProbeResource::Nodes },
        ProbeBinding { binding: 1, resource: ProbeResource::Tris },
        ProbeBinding { binding: 2, resource: ProbeResource::TriMat },
        ProbeBinding { binding: 3, resource: ProbeResource::Mats },
        ProbeBinding { binding: 4, resource: ProbeResource::Lights },
        ProbeBinding { binding: 5, resource: ProbeResource::Emitters },
        ProbeBinding { binding: 6, resource: ProbeResource::Params },
        ProbeBinding { binding: 7, resource: ProbeResource::Probes },
        ProbeBinding { binding: 8, resource: ProbeResource::Visibility },
        ProbeBinding { binding: 9, resource: ProbeResource::SkyCube { captured } },
        ProbeBinding { binding: 10, resource: ProbeResource::SkySampler { captured } },
    ];
    assert(b@ =~= probe_slots(captured));
    b
}

/// The kind of slot that takes a resource: the scene's records are read, the probes' written.
pub open spec fn probe_kind(r: ProbeResource) -> crate::layout::BindKind {
    match r {
        ProbeResource::Params => crate::layout::BindKind::Uniform,
        ProbeResource::Probes | ProbeResource::Visibility => crate::layout::BindKind::StorageReadWrite,
        ProbeResource::SkyCube { .. } => crate::layout::BindKind::TextureCube,
        ProbeResource::SkySampler { .. } => crate::layout::BindKind::Sampler,
        _ => crate::layout::BindKind::StorageRead,
    }
}

/// The bindings of the probe update fill its layout: each slot once, in order, with a resource of
/// its kind.
pub proof fn law_probe_bindings_fill_their_layout(captured: bool)
    ensures
        ({
            let l = crate::layout::probe_entries();
            let b = probe_slots(captured);
            &&& l.len() == b.len()
            &&& forall|i: int|
                0 <= i < l.len() ==> (#[trigger] l[i]).binding == b[i].binding && l[i].kind
                    == probe_kind(b[i].resource)
        }),
{
}

/// Bytes of the irradiance records of `n` probes.
pub open spec fn probe_bytes_of(n: int) -> int {
    n * (SH_N * 16)
}

/// Bytes of the visibility records of `n` probes.
pub open spec fn vis_bytes_of(n: int) -> int {
    n * (VIS_TEXELS * 8)
}

proof fn lemma_record_bytes(n: int)
    ensures
        n * (SH_N * 16) == 160 * n,
        n * (VIS_TEXELS * 8) == 512 * n,
{
    assert(n * (SH_N * 16) == 160 * n) by (nonlinear_arith)
        requires
            SH_N == 10,
    ;
    assert(n * (VIS_TEXELS * 8) == 512 * n) by (nonlinear_arith)
        requires
            VIS_TEXELS == 64,
    ;
}

/// The records of every grid position lie inside the two probe buffers.
pub proof fn law_records_fit_the_buffers(d: Dims, x: int, y: int, z: int)
    requires
        d.holds(x, y, z),
    ensures
        0 <= d.index(x, y, z) * (SH_N * 16),
        (d.index(x, y, z) + 1) * (SH_N * 16) <= probe_bytes_of(d.count()),
        0 <= d.index(x, y, z) * (VIS_TEXELS * 8),
        (d.index(x, y, z) + 1) * (VIS_TEXELS * 8) <= vis_bytes_of(d.count()),
{
    law_probe_index_is_in_range(d, x, y, z);
    lemma_record_bytes(d.index(x, y, z));
    lemma_record_bytes(d.index(x, y, z) + 1);
    lemma_record_bytes(d.count());
}

/// What one update pass dispatches: the parameters to upload and the number of workgroups.
#[derive(Clone, Copy, Debug, PartialEq, Eq, Structural)]
pub struct Dispatch {
    pub params: GiParams,
    pub count: u32,
}

/// A probe of the cell around a point: its grid position and its number.
#[derive(Clone, Copy, Debug, PartialEq, Eq, Structural)]
pub struct Corner {
    pub x: u32,
    pub y: u32,
    pub z: u32,
    pub index: u32,
}

/// The state of the probe grid.
#[derive(Clone, Copy, Debug, PartialEq, Eq, Structural)]
pub struct RtGi {
    pub params: GiParams,
    /// Whether a scene is uploaded.
    pub scene: bool,
    pub enabled: bool,
    pub frame: u32,
    /// rays per thread and pass
    pub rays_per_thread: u32,
    /// temporal hysteresis: the share of the previous frame that is kept
    pub hysteresis: u32,
    /// update passes run since the scene was set
    pub updates: u32,
    pub nprobes: u32,
    pub spacing: u32,
    pub dims: Dims,
    /// probes updated by the last pass
    pub last_dispatch_probes: u32,
    /// slice updates still owed a full-weight pass after a lighting change
    pub kick: u32,
}

/// Probes per slice when `n` probes are split into `parts` slices: rounded up.
pub open spec fn slice_len(n: int, parts: int) -> int {
    (n + parts - 1) / parts
}

/// First probe of slice `part`.
pub open spec fn slice_base(n: int, parts: int, part: int) -> int {
    (part % parts) * slice_len(n, parts)
}

/// Number of probes in slice `part`: none when the slices before it already cover the grid.
pub open spec fn slice_count(n: int, parts: int, part: int) -> int {
    let left = n - slice_base(n, parts, part);
    if left <= 0 {
        0
    } else if left < slice_len(n, parts) {
        left
    } else {
        slice_len(n, parts)
    }
}

/// Whether slice `part` updates probe `p`.
pub open spec fn slice_holds(n: int, parts: int, part: int, p: int) -> bool {
    slice_base(n, parts, part) <= p < slice_base(n, parts, part) + slice_count(n, parts, part)
}

/// The number of slices that a request for `parts` means: none is one.
pub open spec fn parts_of(parts: u32) -> int {
    if parts == 0 {
        1
    } else {
        parts as int
    }
}

/// The one slice of an undivided grid holds all of it.
proof fn lemma_whole_slice(n: int)
    requires
        1 <= n <= MAX_PROBES,
    ensures
        slice_base(n, 1, 0) == 0,
        slice_count(n, 1, 0) == n,
{
    lemma_slice_len(n, 1);
    assert(0int * slice_len(n, 1) == 0);
}

proof fn lemma_slice_len(n: int, parts: int)
    requires
        n >= 1,
        parts >= 1,
    ensures
        1 <= slice_len(n, parts) <= n,
        parts * slice_len(n, parts) >= n,
        parts * (slice_len(n, parts) - 1) < n,
{
    let q = slice_len(n, parts);
    vstd::arithmetic::div_mod::lemma_fundamental_div_mod(n + parts - 1, parts);
    vstd::arithmetic::div_mod::lemma_mod_bound(n + parts - 1, parts);
    assert(parts * q > n - 1 && parts * (q - 1) < n) by (nonlinear_arith)
        requires
            n + parts - 1 == parts * q + (n + parts - 1) % parts,
            0 <= (n + parts - 1) % parts < parts,
    ;
    assert(1 <= q <= n) by (nonlinear_arith)
        requires
            parts * q >= n,
            parts * (q - 1) < n,
            n >= 1,
            parts >= 1,
    ;
}

/// The first probe of a slice can be computed in 64 bits.
proof fn lemma_slice_base(n: int, parts: u32, part: u32)
    requires
        1 <= n <= MAX_PROBES,
        parts >= 1,
    ensures
        1 <= slice_len(n, parts as int) <= n,
        slice_base(n, parts as int, part as int) == (part % parts) * slice_len(n, parts as int),
        0 <= (part % parts) * slice_len(n, parts as int) < 0x1_0000_0000 * 0x8000,
{
    lemma_slice_len(n, parts as int);
    let (q, s) = ((part % parts) as int, slice_len(n, parts as int));
    assert(0 <= q * s < 0x1_0000_0000 * 0x8000) by (nonlinear_arith)
        requires
            0 <= q < 0x1_0000_0000,
            1 <= s <= 0x8000,
    ;
}

/// The slices partition the grid: each probe lies in exactly one slice of a round.
pub proof fn law_slices_partition_the_grid(n: int, parts: int, p: int)
    requires
        parts >= 1,
        0 <= p < n,
    ensures
        0 <= p / slice_len(n, parts) < parts,
        slice_holds(n, parts, p / slice_len(n, parts), p),
        forall|part: int|
            0 <= part < parts && #[trigger] slice_holds(n, parts, part, p) ==> part == p
                / slice_len(n, parts),
{
    lemma_slice_len(n, parts);
    let s = slice_len(n, parts);
    let k = p / s;
    vstd::arithmetic::div_mod::lemma_fundamental_div_mod(p, s);
    vstd::arithmetic::div_mod::lemma_mod_bound(p, s);
    assert(0 <= k < parts) by (nonlinear_arith)
        requires
            p == s * k + p % s,
            0 <= p % s < s,
            0 <= p < n,
            parts * s >= n,
            s >= 1,
    ;
    vstd::arithmetic::div_mod::lemma_small_mod(k as nat, parts as nat);
    assert(k * s == s * k) by (nonlinear_arith);
    assert forall|part: int|
        0 <= part < parts && #[trigger] slice_holds(n, parts, part, p) implies part == k by {
        vstd::arithmetic::div_mod::lemma_small_mod(part as nat, parts as nat);
        assert(part == k) by (nonlinear_arith)
            requires
                part * s <= p < part * s + s,
                p == s * k + p % s,
                0 <= p % s < s,
        ;
    }
}

/// A slice never reaches beyond the grid, and holds at most the length of a slice.
pub proof fn law_slice_stays_in_the_grid(n: int, parts: int, part: int)
    requires
        n >= 1,
        parts >= 1,
        part >= 0,
    ensures
        0 <= slice_count(n, parts, part) <= slice_len(n, parts),
        slice_base(n, parts, part) >= 0,
        slice_count(n, parts, part) > 0 ==> slice_base(n, parts, part) + slice_count(
            n,
            parts,
            part,
        ) <= n,
{
    lemma_slice_len(n, parts);
    vstd::arithmetic::div_mod::lemma_mod_bound(part, parts);
    let (q, s) = (part % parts, slice_len(n, parts));
    assert(q * s >= 0) by (nonlinear_arith)
        requires
            q >= 0,
            s >= 1,
    ;
}

/// Slices per frame for `n` probes when a frame should update about `target` of them.
pub open spec fn parts_for(n: int, target: int) -> int {
    let per = if target < 64 {
        64
    } else {
        target
    };
    let parts = (n + target - 1) / per;
    if parts < 1 {
        1
    } else {
        parts
    }
}

proof fn lemma_parts(n: int, target: int)
    requires
        n >= 1,
        target >= 0,
    ensures
        1 <= parts_for(n, target) <= n,
        0 <= (n + target - 1) / (if target < 64 {
            64
        } else {
            target
        }) <= n,
{
    let per = if target < 64 {
        64
    } else {
        target
    };
    let q = (n + target - 1) / per;
    vstd::arithmetic::div_mod::lemma_fundamental_div_mod(n + target - 1, per);
    vstd::arithmetic::div_mod::lemma_mod_bound(n + target - 1, per);
    assert(0 <= q <= n) by (nonlinear_arith)
        requires
            n + target - 1 == per * q + (n + target - 1) % per,
            0 <= (n + target - 1) % per < per,
            0 <= target <= per,
            per >= 1,
            n >= 1,
    ;
}

/// With a target of at least one wave of probes, no slice of a frame's split exceeds the target.
pub proof fn law_frame_cost_is_bounded(n: int, target: int, part: int)
    requires
        n >= 1,
        target >= 64,
        part >= 0,
    ensures
        slice_count(n, parts_for(n, target), part) <= target,
{
    let parts = parts_for(n, target);
    let q = (n + target - 1) / target;
    vstd::arithmetic::div_mod::lemma_fundamental_div_mod(n + target - 1, target);
    vstd::arithmetic::div_mod::lemma_mod_bound(n + target - 1, target);
    assert(q >= 1 && q * target >= n) by (nonlinear_arith)
        requires
            n + target - 1 == target * q + (n + target - 1) % target,
            0 <= (n + target - 1) % target < target,
            n >= 1,
            target >= 64,
    ;
    lemma_slice_len(n, parts);
    let s = slice_len(n, parts);
    assert(s <= target) by (nonlinear_arith)
        requires
            parts * target >= n,
            parts * (s - 1) < n,
            parts >= 1,
    ;
}

/// Full-weight passes left after `i` more passes.
pub open spec fn kick_left(kick: int, i: int) -> int {
    if i < kick {
        kick - i
    } else {
        0
    }
}

/// After a kick every slice is replaced once: whichever slice comes first, each slice of the
/// round has its turn while full-weight passes are still owed.
pub proof fn law_kick_reaches_every_slice(parts: int, first: int, slice: int)
    requires
        parts >= 1,
        first >= 0,
        0 <= slice < parts,
    ensures
        exists|i: int|
            0 <= i < parts && #[trigger] ((first + i) % parts) == slice && kick_left(parts + 1, i)
                > 0,
{
    let i = (slice - first % parts + parts) % parts;
    vstd::arithmetic::div_mod::lemma_mod_bound(slice - first % parts + parts, parts);
    vstd::arithmetic::div_mod::lemma_mod_bound(first, parts);
    vstd::arithmetic::div_mod::lemma_fundamental_div_mod(first, parts);
    let (q, m) = (first / parts, first % parts);
    vstd::arithmetic::div_mod::lemma_fundamental_div_mod(slice - m + parts, parts);
    let q2 = (slice - m + parts) / parts;
    assert(first + i == slice + parts * (q + 1 - q2)) by (nonlinear_arith)
        requires
            first == parts * q + m,
            slice - m + parts == parts * q2 + i,
    ;
    vstd::arithmetic::div_mod::lemma_mod_multiples_vanish(q + 1 - q2, slice, parts);
    vstd::arithmetic::div_mod::lemma_small_mod(slice as nat, parts as nat);
    assert((first + i) % parts == slice) by {
        assert(parts * (q + 1 - q2) + slice == first + i);
    }
}

/// A round of passes over consecutive slices, whichever comes first, updates every probe exactly
/// once.
pub proof fn law_round_updates_each_probe_once(n: int, parts: int, first: int, p: int)
    requires
        parts >= 1,
        first >= 0,
        0 <= p < n,
    ensures
        exists|i: int| 0 <= i < parts && slice_holds(n, parts, #[trigger] (first + i), p),
        forall|i: int, j: int|
            0 <= i < j < parts ==> !(slice_holds(n, parts, #[trigger] (first + i), p)
                && slice_holds(n, parts, #[trigger] (first + j), p)),
{
    let k = p / slice_len(n, parts);
    law_slices_partition_the_grid(n, parts, p);
    law_kick_reaches_every_slice(parts, first, k);
    vstd::arithmetic::div_mod::lemma_small_mod(k as nat, parts as nat);
    let i = choose|i: int|
        0 <= i < parts && #[trigger] ((first + i) % parts) == k && kick_left(parts + 1, i) > 0;
    assert(slice_holds(n, parts, first + i, p));
    assert forall|i: int, j: int| 0 <= i < j < parts implies !(slice_holds(
        n,
        parts,
        #[trigger] (first + i),
        p,
    ) && slice_holds(n, parts, #[trigger] (first + j), p)) by {
        let (a, b) = ((first + i) % parts, (first + j) % parts);
        vstd::arithmetic::div_mod::lemma_mod_bound(first + i, parts);
        vstd::arithmetic::div_mod::lemma_mod_bound(first + j, parts);
        vstd::arithmetic::div_mod::lemma_small_mod(a as nat, parts as nat);
        vstd::arithmetic::div_mod::lemma_small_mod(b as nat, parts as nat);
        if slice_holds(n, parts, first + i, p) && slice_holds(n, parts, first + j, p) {
            assert(slice_holds(n, parts, a, p) && slice_holds(n, parts, b, p));
            vstd::arithmetic::div_mod::lemma_fundamental_div_mod(first + i, parts);
            vstd::arithmetic::div_mod::lemma_fundamental_div_mod(first + j, parts);
            let (q, r) = ((first + i) / parts, (first + j) / parts);
            assert(false) by (nonlinear_arith)
                requires
                    first + i == parts * q + a,
                    first + j == parts * r + b,
                    a == b,
                    0 <= i < j < parts,
            {
                assert(j - i == parts * (r - q));
                assert(r - q >= 1 ==> parts * (r - q) >= parts);
                assert(r - q <= 0 ==> parts * (r - q) <= 0);
            }
        }
    }
}

/// Parameters of a scene on a grid.
pub open spec fn scene_params(
    g: RtGi,
    s: RtGiScene,
    spacing: u32,
    dims: Dims,
    sky: ScaledSky,
    captured: bool,
    t: Tuning,
) -> GiParams {
    GiParams {
        origin: s.bounds_min.extend(spacing),
        dims: Vec4 { x: dims.nx, y: dims.ny, z: dims.nz, w: if g.enabled { 1 } else { 0 } },
        sun_dir: s.sun_dir.extend(if captured && !t.no_cube { F32_ONE } else { 0 }),
        sun_color: sky.sun_color.extend(sky.cube_gain),
        sky_color: sky.sky_color.extend(or_default(t.ground, DEFAULT_GROUND)),
        misc: Vec4 {
            x: 0,
            y: g.rays_per_thread,
            z: (s.nodes@.len() / NODE_BYTES as nat) as u32,
            w: (s.tris@.len() / TRI_BYTES as nat) as u32,
        },
        misc2: Vec4 {
            x: s.lights@.len() as u32,
            y: s.emitters@.len() as u32,
            z: dims.count() as u32,
            w: 0,
        },
        fog: Vec4 { x: s.fog_sigma, y: s.fog_top, z: s.total_emitter_weight, w: F32_ONE },
        bias: Vec4 {
            x: NORMAL_BIAS,
            y: VIEW_BIAS,
            z: VIS_RANGE,
            w: or_default(t.gain, DEFAULT_GAIN),
        },
        nee: Vec4 {
            x: f32bits::clamped(or_default(t.nee, F32_TWO), 0, MAX_NEE),
            y: f32bits::raised(or_default(t.cap, DEFAULT_CAP), MIN_CAP),
            z: f32bits::raised(or_default(t.nee_margin, DEFAULT_NEE_MARGIN), 0),
            w: 0,
        },
    }
}

/// The grid over a box that spans `cells` probe spacings per axis: one more fence probe per axis.
/// None while that is over the cap and some axis still has more than one cell.
pub open spec fn planned_grid(cells: Dims, max_probes: u32) -> Option<Dims> {
    let fits = (cells.nx + 1) * (cells.ny + 1) * (cells.nz + 1) <= max_probes;
    let coarsest = cells.nx <= 1 && cells.ny <= 1 && cells.nz <= 1;
    if fits || coarsest {
        Some(
            Dims {
                nx: (cells.nx + 1) as u32,
                ny: (cells.ny + 1) as u32,
                nz: (cells.nz + 1) as u32,
            },
        )
    } else {
        None
    }
}

/// A planned grid stays under its cap, whatever the box, as long as the cap leaves room for one
/// cell; so a cap within the hard one gives a grid that a scene can be set on.
pub proof fn law_planned_grid_stays_under_the_cap(cells: Dims, max_probes: u32)
    requires
        max_probes >= 8,
    ensures
        planned_grid(cells, max_probes) matches Some(d) ==> 1 <= d.count() <= max_probes,
{
    let (x, y, z) = (cells.nx + 1, cells.ny + 1, cells.nz + 1);
    assert(x * y * z >= 1 && x <= x * y * z && y <= x * y * z && z <= x * y * z)
        by (nonlinear_arith)
        requires
            x >= 1,
            y >= 1,
            z >= 1,
    ;
    if cells.nx <= 1 && cells.ny <= 1 && cells.nz <= 1 {
        assert(x * y * z <= 8) by (nonlinear_arith)
            requires
                1 <= x <= 2,
                1 <= y <= 2,
                1 <= z <= 2,
        ;
    }
}

/// A grid planned over at least one cell per axis has two probes along each axis, so that every
/// cell that a point is moved to has all its eight corners.
pub proof fn law_planned_grid_has_whole_cells(
    cells: Dims,
    max_probes: u32,
    x: u32,
    y: u32,
    z: u32,
    k: int,
)
    requires
        cells.nx >= 1,
        cells.ny >= 1,
        cells.nz >= 1,
        0 <= k < 8,
    ensures
        planned_grid(cells, max_probes) matches Some(d) ==> d.nx >= 2 && d.ny >= 2 && d.nz >= 2
            && d.holds(
            base_cell(d.nx, x) + k % 2,
            base_cell(d.ny, y) + k / 2 % 2,
            base_cell(d.nz, z) + k / 4 % 2,
        ),
{
    let (a, b, c) = (cells.nx + 1, cells.ny + 1, cells.nz + 1);
    assert(a <= a * b * c && b <= a * b * c && c <= a * b * c) by (nonlinear_arith)
        requires
            a >= 1,
            b >= 1,
            c >= 1,
    ;
}

/// With two probes along each axis a dump lists all eight corners, in the order of their number.
pub proof fn law_dump_lists_eight_corners(g: RtGi, x: u32, y: u32, z: u32)
    requires
        g.wf(),
        g.dims.nx >= 2,
        g.dims.ny >= 2,
        g.dims.nz >= 2,
    ensures
        ({
            let bx = base_cell(g.dims.nx, x);
            let by = base_cell(g.dims.ny, y);
            let bz = base_cell(g.dims.nz, z);
            let all = Seq::new(8, |k: int| g.corner(bx, by, bz, k));
            all.filter(|c: Corner| g.dims.holds(c.x as int, c.y as int, c.z as int)) == all
        }),
{
    let bx = base_cell(g.dims.nx, x);
    let by = base_cell(g.dims.ny, y);
    let bz = base_cell(g.dims.nz, z);
    let all = Seq::new(8, |k: int| g.corner(bx, by, bz, k));
    let inside = |c: Corner| g.dims.holds(c.x as int, c.y as int, c.z as int);
    lemma_filter_keeps_all(all, inside);
}

proof fn lemma_filter_keeps_all(all: Seq<Corner>, inside: spec_fn(Corner) -> bool)
    requires
        forall|k: int| 0 <= k < all.len() ==> inside(#[trigger] all[k]),
    ensures
        all.filter(inside) == all,
    decreases all.len(),
{
    reveal(Seq::filter);
    if all.len() > 0 {
        let before = all.drop_last();
        assert forall|k: int| 0 <= k < before.len() implies inside(#[trigger] before[k]) by {
            assert(before[k] == all[k]);
        }
        lemma_filter_keeps_all(before, inside);
        assert(inside(all[all.len() - 1]));
        assert(before.push(all.last()) =~= all);
    } else {
        assert(all.filter(inside) =~= all);
    }
}

/// Materials to upload: a grey placeholder where a scene brings fewer than two vectors.
pub open spec fn uploaded_mats(mats: Seq<Vec4>) -> Seq<Vec4> {
    if mats.len() < 2 {
        seq![Vec4 { x: HALF, y: HALF, z: HALF, w: 0 }, zero4()]
    } else {
        mats
    }
}

/// Material indices to upload: one zero where a scene brings none.
pub open spec fn uploaded_tri_mat(m: Seq<u32>) -> Seq<u32> {
    if m.len() == 0 {
        seq![0u32]
    } else {
        m
    }
}

/// Lights to upload: a dark one where a scene brings none.
pub open spec fn uploaded_lights(ls: Seq<GpuLight>) -> Seq<GpuLight> {
    if ls.len() == 0 {
        seq![no_light()]
    } else {
        ls
    }
}

/// Emitters to upload: a dark one where a scene brings none.
pub open spec fn uploaded_emitters(es: Seq<GpuEmitter>) -> Seq<GpuEmitter> {
    if es.len() == 0 {
        seq![no_emitter()]
    } else {
        es
    }
}

/// The state before a scene is set.
pub open spec fn initial_state(rays: Option<&str>, hysteresis: Option<u32>) -> RtGi {
    RtGi {
        params: initial_params(),
        scene: false,
        enabled: false,
        frame: 0,
        rays_per_thread: config::rays_of(rays) as u32,
        hysteresis: f32bits::clamped(
            or_default(hysteresis, DEFAULT_HYSTERESIS),
            0,
            MAX_HYSTERESIS,
        ),
        updates: 0,
        nprobes: 1,
        spacing: F32_ONE,
        dims: Dims { nx: 1, ny: 1, nz: 1 },
        last_dispatch_probes: 0,
        kick: 0,
    }
}

impl RtGi {
    /// The state after a scene was taken over.
    pub open spec fn with_scene(
        self,
        s: RtGiScene,
        spacing: u32,
        dims: Dims,
        sky: ScaledSky,
        captured: bool,
        t: Tuning,
    ) -> RtGi {
        RtGi {
            params: scene_params(self, s, spacing, dims, sky, captured, t),
            scene: true,
            frame: 0,
            updates: 0,
            nprobes: dims.count() as u32,
            spacing,
            dims,
            ..self
        }
    }

    /// The state with the lookups switched.
    pub open spec fn with_enabled(self, on: bool) -> RtGi {
        RtGi {
            enabled: on,
            params: GiParams {
                dims: Vec4 {
                    w: if on && self.scene {
                        1
                    } else {
                        0
                    },
                    ..self.params.dims
                },
                ..self.params
            },
            ..self
        }
    }

    /// The state with another energy scale.
    pub open spec fn with_gain(self, gain: u32) -> RtGi {
        RtGi {
            params: GiParams {
                bias: Vec4 { w: f32bits::clamped(gain, MIN_GAIN, MAX_GAIN), ..self.params.bias },
                ..self.params
            },
            ..self
        }
    }

    /// The state without its scene.
    pub open spec fn cleared(self) -> RtGi {
        RtGi {
            scene: false,
            enabled: false,
            params: GiParams { dims: Vec4 { w: 0, ..self.params.dims }, ..self.params },
            ..self
        }
    }

    /// The state that owes every slice a full-weight pass.
    pub open spec fn kicked(self, target: u32) -> RtGi {
        RtGi { kick: (parts_for(self.nprobes as int, target as int) + 1) as u32, ..self }
    }

    /// The grid has between one probe and the hard cap; the mode flag is on exactly while the
    /// lookups are enabled and a scene is there.
    pub open spec fn wf(self) -> bool {
        &&& 1 <= self.nprobes <= MAX_PROBES
        &&& self.nprobes == self.dims.count()
        &&& 1 <= self.rays_per_thread <= 4
        &&& self.params.dims == (Vec4 {
            x: self.dims.nx,
            y: self.dims.ny,
            z: self.dims.nz,
            w: if self.enabled && self.scene {
                1
            } else {
                0
            },
        })
        &&& self.params.origin.w == self.spacing
        &&& self.params.misc2.z == self.nprobes
    }

    /// A grid without a scene: one probe, lookups off.
    pub fn new(rays: Option<&str>, hysteresis: Option<u32>) -> (g: RtGi)
        ensures
            g.wf(),
            g == initial_state(rays, hysteresis),
    {
        assert((Dims { nx: 1, ny: 1, nz: 1 }).count() == 1) by (nonlinear_arith);
        RtGi {
            params: GiParams::default(),
            scene: false,
            enabled: false,
            frame: 0,
            rays_per_thread: config::rays_per_thread(rays),
            hysteresis: f32bits::clamp(value_or(hysteresis, DEFAULT_HYSTERESIS), 0, MAX_HYSTERESIS),
            updates: 0,
            nprobes: 1,
            spacing: F32_ONE,
            dims: Dims { nx: 1, ny: 1, nz: 1 },
            last_dispatch_probes: 0,
            kick: 0,
        }
    }

    pub fn has_scene(&self) -> (r: bool)
        ensures
            r == self.scene,
    {
        self.scene
    }

    /// A probe spacing, at least `min_spacing`: what a grid starts from, and what it is widened to.
    pub fn floor_spacing(spacing: u32, min_spacing: u32) -> (s: u32)
        ensures
            s == f32bits::raised(spacing, min_spacing),
            !f32bits::f32_less(s, min_spacing),
    {
        f32bits::at_least(spacing, min_spacing)
    }

    /// The grid over a box that spans `cells` probe spacings per axis, with one more fence probe
    /// per axis. `None` asks for a wider spacing: the grid is over `max_probes` and some axis still
    /// has more than one cell.
    pub fn plan_grid(cells: Dims, max_probes: u32) -> (r: Option<Dims>)
        ensures
            r == planned_grid(cells, max_probes),
            r matches Some(d) ==> d.nx - 1 == cells.nx && d.ny - 1 == cells.ny && d.nz - 1
                == cells.nz,
    {
        let x: u128 = cells.nx as u128 + 1;
        let y: u128 = cells.ny as u128 + 1;
        let z: u128 = cells.nz as u128 + 1;
        assert(x * y <= 0x1_0000_0000 * 0x1_0000_0000) by (nonlinear_arith)
            requires
                1 <= x <= 0x1_0000_0000,
                1 <= y <= 0x1_0000_0000,
        ;
        let xy: u128 = x * y;
        assert(xy * z <= 0x1_0000_0000_0000_0000 * 0x1_0000_0000) by (nonlinear_arith)
            requires
                0 <= xy <= 0x1_0000_0000_0000_0000,
                1 <= z <= 0x1_0000_0000,
        ;
        let n: u128 = xy * z;
        let coarsest: bool = cells.nx <= 1 && cells.ny <= 1 && cells.nz <= 1;
        if n <= max_probes as u128 || coarsest {
            proof {
                if n <= max_probes {
                    assert(x <= n && y <= n && z <= n) by (nonlinear_arith)
                        requires
                            x >= 1,
                            y >= 1,
                            z >= 1,
                            xy == x * y,
                            n == xy * z,
                    ;
                }
            }
            Some(Dims { nx: cells.nx + 1, ny: cells.ny + 1, nz: cells.nz + 1 })
        } else {
            None
        }
    }

    /// Take over a scene on the grid that was planned for it. `captured` says whether a sky cube
    /// was captured.
    pub fn set_scene(
        &mut self,
        s: &RtGiScene,
        spacing: u32,
        dims: Dims,
        sky: ScaledSky,
        captured: bool,
        t: Tuning,
    ) -> (plan: ScenePlan)
        requires
            old(self).wf(),
            1 <= dims.count() <= MAX_PROBES,
        ensures
            final(self).wf(),
            *final(self) == old(self).with_scene(*s, spacing, dims, sky, captured, t),
            plan.tri_mat@ == uploaded_tri_mat(s.tri_mat@),
            plan.mats@ == crate::words::lane_words(uploaded_mats(s.mats@)),
            plan.lights@ == crate::words::lane_words(
                light_lanes(uploaded_lights(s.lights@)),
            ),
            plan.emitters@ == crate::words::lane_words(
                emitter_lanes(uploaded_emitters(s.emitters@)),
            ),
            s.lights@.len() > 0 ==> holds_lights(plan.lights@, s.lights@),
            s.emitters@.len() > 0 ==> holds_emitters(plan.emitters@, s.emitters@),
            plan.probe_bytes == probe_bytes_of(dims.count()),
            plan.vis_bytes == vis_bytes_of(dims.count()),
            plan.bindings@ == probe_slots(captured),
    {
        let nprobes: u32 = Self::probe_count(dims);
        let params: GiParams = GiParams {
            origin: s.bounds_min.extend(spacing),
            dims: Vec4 {
                x: dims.nx,
                y: dims.ny,
                z: dims.nz,
                w: if self.enabled {
                    1
                } else {
                    0
                },
            },
            sun_dir: s.sun_dir.extend(
                if captured && !t.no_cube {
                    F32_ONE
                } else {
                    0
                },
            ),
            sun_color: sky.sun_color.extend(sky.cube_gain),
            sky_color: sky.sky_color.extend(value_or(t.ground, DEFAULT_GROUND)),
            misc: Vec4 {
                x: 0,
                y: self.rays_per_thread,
                z: (s.nodes.len() / NODE_BYTES) as u32,
                w: (s.tris.len() / TRI_BYTES) as u32,
            },
            misc2: Vec4 {
                x: s.lights.len() as u32,
                y: s.emitters.len() as u32,
                z: nprobes,
                w: 0,
            },
            fog: Vec4 { x: s.fog_sigma, y: s.fog_top, z: s.total_emitter_weight, w: F32_ONE },
            bias: Vec4 {
                x: NORMAL_BIAS,
                y: VIEW_BIAS,
                z: VIS_RANGE,
                w: value_or(t.gain, DEFAULT_GAIN),
            },
            nee: Vec4 {
                x: f32bits::clamp(value_or(t.nee, F32_TWO), 0, MAX_NEE),
                y: f32bits::at_least(value_or(t.cap, DEFAULT_CAP), MIN_CAP),
                z: f32bits::at_least(value_or(t.nee_margin, DEFAULT_NEE_MARGIN), 0),
                w: 0,
            },
        };
        self.params = params;
        self.scene = true;
        self.frame = 0;
        self.updates = 0;
        self.nprobes = nprobes;
        self.spacing = spacing;
        self.dims = dims;
        let tri_mat: Vec<u32> = if s.tri_mat.len() == 0 {
            vec![0u32]
        } else {
            s.tri_mat.clone()
        };
        let mats: Vec<u32> = if s.mats.len() < 2 {
            let grey: Vec<Vec4> = vec![Vec4 { x: HALF, y: HALF, z: HALF, w: 0 }, zero4()];
            assert(grey@ =~= uploaded_mats(s.mats@));
            words_of(&grey)
        } else {
            words_of(&s.mats)
        };
        let lights: Vec<u32> = if s.lights.len() == 0 {
            let one: Vec<GpuLight> = vec![GpuLight::default()];
            assert(one@ =~= seq![no_light()]);
            words_of(&light_vectors(&one))
        } else {
            words_of(&light_vectors(&s.lights))
        };
        let emitters: Vec<u32> = if s.emitters.len() == 0 {
            let one: Vec<GpuEmitter> = vec![GpuEmitter::default()];
            assert(one@ =~= seq![no_emitter()]);
            words_of(&emitter_vectors(&one))
        } else {
            words_of(&emitter_vectors(&s.emitters))
        };
        proof {
            lemma_record_bytes(nprobes as int);
            law_light_records(s.lights@);
            law_emitter_records(s.emitters@);
        }
        ScenePlan {
            tri_mat,
            mats,
            lights,
            emitters,
            probe_bytes: nprobes as u64 * (SH_N as u64 * 16),
            vis_bytes: nprobes as u64 * (VIS_TEXELS as u64 * 8),
            bindings: probe_bindings(captured),
        }
    }

    fn probe_count(dims: Dims) -> (n: u32)
        requires
            1 <= dims.count() <= MAX_PROBES,
        ensures
            n == dims.count(),
    {
        let (x, y, z): (u32, u32, u32) = (dims.nx, dims.ny, dims.nz);
        assert(x * y <= x * y * z && x * y >= 0) by (nonlinear_arith)
            requires
                x * y * z >= 1,
                x >= 0,
                y >= 0,
                z >= 0,
        ;
        x * y * z
    }

    /// Switch the shading-side mode flag.
    pub fn set_enabled(&mut self, on: bool)
        requires
            old(self).wf(),
        ensures
            final(self).wf(),
            *final(self) == old(self).with_enabled(on),
    {
        self.enabled = on;
        self.params.dims.w =
        if on && self.scene {
            1
        } else {
            0
        };
    }

    /// Set the energy scale, limited to the range that can be set.
    pub fn set_gain(&mut self, gain: u32)
        requires
            old(self).wf(),
        ensures
            final(self).wf(),
            *final(self) == old(self).with_gain(gain),
    {
        self.params.bias.w = f32bits::clamp(gain, MIN_GAIN, MAX_GAIN);
    }

    /// Drop the scene and switch the lookups off.
    pub fn clear_scene(&mut self)
        requires
            old(self).wf(),
        ensures
            final(self).wf(),
            *final(self) == old(self).cleared(),
    {
        self.scene = false;
        self.enabled = false;
        self.params.dims.w = 0;
    }

    /// The state after the sun was overridden.
    pub open spec fn with_sun(self, dir: Vec3, color: Vec3, target: u32) -> RtGi {
        RtGi {
            params: GiParams {
                sun_dir: dir.extend(self.params.sun_dir.w),
                sun_color: color.extend(self.params.sun_color.w),
                ..self.params
            },
            kick: (parts_for(self.nprobes as int, target as int) + 1) as u32,
            ..self
        }
    }

    /// Override the sun: its direction and colour. Every slice is owed one full-weight pass.
    pub fn set_sun(&mut self, dir: Vec3, color: Vec3, target: u32)
        requires
            old(self).wf(),
        ensures
            final(self).wf(),
            *final(self) == old(self).with_sun(dir, color, target),
    {
        self.params.sun_dir = dir.extend(self.params.sun_dir.w);
        self.params.sun_color = color.extend(self.params.sun_color.w);
        self.kick(target);
    }

    /// Force the next slices to replace rather than blend (after any lighting change).
    pub fn kick(&mut self, target: u32)
        requires
            old(self).wf(),
        ensures
            final(self).wf(),
            *final(self) == old(self).kicked(target),
    {
        self.kick = self.parts_per_frame(target) + 1;
    }

    /// Probe slices per frame for the interactive update (1 = the whole grid every frame).
    pub fn parts_per_frame(&self, target: u32) -> (parts: u32)
        requires
            self.wf(),
        ensures
            parts == parts_for(self.nprobes as int, target as int),
            1 <= parts <= self.nprobes,
    {
        let per: u64 = if target < 64 { 64 } else { target as u64 };
        let q: u64 = (self.nprobes as u64 + target as u64 - 1) / per;
        proof {
            lemma_parts(self.nprobes as int, target as int);
        }
        if q < 1 {
            1
        } else {
            q as u32
        }
    }

    /// The weight of the next pass: `blend` where given, else `steady` (1 - hysteresis), or 1 while
    /// a kick is owed and on the very first update, so that the records start from a full estimate.
    pub open spec fn weight(self, blend: Option<u32>, steady: u32) -> u32 {
        match blend {
            Some(a) => a,
            None => if self.kick > 0 || self.updates == 0 {
                F32_ONE
            } else {
                steady
            },
        }
    }

    /// The state after a pass over slice `part` of `parts` was asked for.
    pub open spec fn after_pass(self, parts: int, part: int) -> RtGi {
        let n = self.nprobes as int;
        if !self.scene {
            self
        } else {
            let owed = RtGi { kick: kick_left(self.kick as int, 1) as u32, ..self };
            if slice_count(n, parts, part) == 0 {
                owed
            } else {
                RtGi {
                    frame: self.frame.wrapping_add(1),
                    updates: (self.updates + 1) as u32,
                    last_dispatch_probes: slice_count(n, parts, part) as u32,
                    ..owed
                }
            }
        }
    }

    /// The state after `n` passes over consecutive slices of `parts`, from slice `first` on.
    pub open spec fn after_round(self, parts: int, first: int, n: nat) -> RtGi
        decreases n,
    {
        if n == 0 {
            self
        } else {
            self.after_round(parts, first, (n - 1) as nat).after_pass(parts, first + n - 1)
        }
    }

    /// One pass over the whole grid.
    pub fn dispatch(&mut self, blend: Option<u32>, steady: u32) -> (r: Option<Dispatch>)
        requires
            old(self).wf(),
            old(self).scene ==> old(self).updates < u32::MAX,
        ensures
            final(self).wf(),
            *final(self) == old(self).after_pass(1, 0),
            r == if old(self).scene {
                Some(old(self).whole_pass(old(self).weight(blend, steady)))
            } else {
                None
            },
    {
        proof {
            lemma_whole_slice(self.nprobes as int);
        }
        self.dispatch_part(blend, steady, 1, 0)
    }

    /// Whether a pass over slice `part` of `parts` has anything to record.
    pub fn records_pass(&self, parts: u32, part: u32) -> (r: bool)
        requires
            self.wf(),
        ensures
            r == (self.scene && slice_count(self.nprobes as int, parts_of(parts), part as int) > 0),
    {
        let parts: u32 = if parts == 0 { 1 } else { parts };
        let slice: u64 = (self.nprobes as u64 + parts as u64 - 1) / parts as u64;
        proof {
            lemma_slice_base(self.nprobes as int, parts, part);
        }
        self.scene && (part % parts) as u64 * slice < self.nprobes as u64
    }

    /// One pass over slice `part` of `parts` (round-robin partial updates keep the per-frame cost
    /// bounded). `None` when there is no scene, or nothing left for this slice.
    pub fn dispatch_part(
        &mut self,
        blend: Option<u32>,
        steady: u32,
        parts: u32,
        part: u32,
    ) -> (r: Option<Dispatch>)
        requires
            old(self).wf(),
            old(self).scene && slice_count(old(self).nprobes as int, parts_of(parts), part as int)
                > 0 ==> old(self).updates < u32::MAX,
        ensures
            final(self).wf(),
            *final(self) == old(self).after_pass(parts_of(parts), part as int),
            r == if old(self).scene && slice_count(
                old(self).nprobes as int,
                parts_of(parts),
                part as int,
            ) > 0 {
                Some(
                    old(self).part_pass(
                        parts_of(parts),
                        part as int,
                        old(self).weight(blend, steady),
                    ),
                )
            } else {
                None
            },
    {
        if !self.scene {
            return None;
        }
        let alpha: u32 = match blend {
            Some(a) => a,
            None => if self.kick > 0 || self.updates == 0 {
                F32_ONE
            } else {
                steady
            },
        };
        let parts: u32 = if parts == 0 { 1 } else { parts };
        let slice: u64 = (self.nprobes as u64 + parts as u64 - 1) / parts as u64;
        proof {
            lemma_slice_base(self.nprobes as int, parts, part);
        }
        let base: u64 = (part % parts) as u64 * slice;
        if self.kick > 0 {
            self.kick = self.kick - 1;
        }
        if base >= self.nprobes as u64 {
            return None;
        }
        let left: u64 = self.nprobes as u64 - base;
        let count: u32 = if slice < left { slice as u32 } else { left as u32 };
        let mut p: GiParams = self.params;
        p.misc.x = self.frame;
        p.misc.y = self.rays_per_thread;
        p.misc2.w = base as u32;
        p.fog.w = alpha;
        self.frame = self.frame.wrapping_add(1);
        self.updates = self.updates + 1;
        self.last_dispatch_probes = count;
        Some(Dispatch { params: p, count })
    }

    /// The state after `n` passes over the whole grid.
    pub open spec fn after_passes(self, n: nat) -> RtGi
        decreases n,
    {
        if n == 0 {
            self
        } else {
            self.after_passes((n - 1) as nat).after_pass(1, 0)
        }
    }

    /// The pass over slice `part` of `parts` that a state dispatches with a given weight.
    pub open spec fn part_pass(self, parts: int, part: int, weight: u32) -> Dispatch {
        let n = self.nprobes as int;
        Dispatch {
            params: GiParams {
                misc: Vec4 { x: self.frame, y: self.rays_per_thread, ..self.params.misc },
                misc2: Vec4 { w: slice_base(n, parts, part) as u32, ..self.params.misc2 },
                fog: Vec4 { w: weight, ..self.params.fog },
                ..self.params
            },
            count: slice_count(n, parts, part) as u32,
        }
    }

    /// The pass over the whole grid that a state dispatches with a given weight.
    pub open spec fn whole_pass(self, weight: u32) -> Dispatch {
        Dispatch {
            params: GiParams {
                misc: Vec4 { x: self.frame, y: self.rays_per_thread, ..self.params.misc },
                misc2: Vec4 { w: 0, ..self.params.misc2 },
                fog: Vec4 { w: weight, ..self.params.fog },
                ..self.params
            },
            count: self.nprobes,
        }
    }

    /// The passes of a warm-up.
    pub open spec fn warm_up_passes(self, weights: Seq<u32>) -> Seq<Dispatch> {
        Seq::new(
            weights.len(),
            |i: int| self.after_passes(i as nat).whole_pass(weights[i]),
        )
    }

    /// Passes over the whole grid back to back, one per weight: a fast warm-up after a scene
    /// change. None without a scene.
    pub fn warm_up(&mut self, weights: &Vec<u32>) -> (out: Vec<Dispatch>)
        requires
            old(self).wf(),
            old(self).scene ==> old(self).updates + weights@.len() <= u32::MAX,
        ensures
            final(self).wf(),
            !old(self).scene ==> out@.len() == 0 && *final(self) == *old(self),
            old(self).scene ==> *final(self) == old(self).after_passes(weights@.len()) && out@
                == old(self).warm_up_passes(weights@),
    {
        let mut out: Vec<Dispatch> = Vec::new();
        if !self.scene {
            return out;
        }
        let ghost start = *self;
        let mut i: usize = 0;
        while i < weights.len()
            invariant
                i <= weights@.len(),
                self.wf(),
                self.scene,
                *self == start.after_passes(i as nat),
                self.updates == start.updates + i,
                start.updates + weights@.len() <= u32::MAX,
                out@.len() == i,
                forall|k: int|
                    0 <= k < i ==> #[trigger] out@[k] == start.after_passes(k as nat).whole_pass(
                        weights@[k],
                    ),
            decreases weights@.len() - i,
        {
            proof {
                lemma_whole_slice(self.nprobes as int);
            }
            match self.dispatch(Some(weights[i]), 0) {
                Some(d) => {
                    out.push(d);
                },
                None => {},
            }
            i = i + 1;
        }
        assert(out@ =~= Seq::new(
            weights@.len(),
            |i: int| start.after_passes(i as nat).whole_pass(weights@[i]),
        ));
        out
    }

    /// Corner `k` of the cell at (`x`, `y`, `z`): one step along each axis whose bit is set in `k`.
    pub open spec fn corner(self, x: u32, y: u32, z: u32, k: int) -> Corner {
        let cx = x + k % 2;
        let cy = y + k / 2 % 2;
        let cz = z + k / 4 % 2;
        Corner {
            x: cx as u32,
            y: cy as u32,
            z: cz as u32,
            index: self.dims.index(cx, cy, cz) as u32,
        }
    }

    /// The probes around a point that lies in cell (`x`, `y`, `z`), once the cell is moved into the
    /// grid: up to eight, in the order of their corner number. None without a scene.
    pub fn dump_at(&self, x: u32, y: u32, z: u32) -> (out: Vec<Corner>)
        requires
            self.wf(),
        ensures
            !self.scene ==> out@.len() == 0,
            self.scene ==> ({
                let bx = base_cell(self.dims.nx, x);
                let by = base_cell(self.dims.ny, y);
                let bz = base_cell(self.dims.nz, z);
                out@ == Seq::new(8, |k: int| self.corner(bx, by, bz, k)).filter(
                    |c: Corner| self.dims.holds(c.x as int, c.y as int, c.z as int),
                )
            }),
    {
        if !self.scene {
            return Vec::new();
        }
        let bx: u32 = clamp_cell(self.dims.nx, x);
        let by: u32 = clamp_cell(self.dims.ny, y);
        let bz: u32 = clamp_cell(self.dims.nz, z);
        let ghost d = self.dims;
        let ghost inside = |c: Corner| d.holds(c.x as int, c.y as int, c.z as int);
        let ghost all = Seq::new(8, |k: int| self.corner(bx, by, bz, k));
        let mut out: Vec<Corner> = Vec::new();
        let mut k: u32 = 0;
        assert(all.take(0).filter(inside) =~= Seq::empty()) by {
            reveal(Seq::filter);
        }
        while k < 8
            invariant
                k <= 8,
                self.wf(),
                d == self.dims,
                bx == base_cell(d.nx, x),
                by == base_cell(d.ny, y),
                bz == base_cell(d.nz, z),
                inside == (|c: Corner| d.holds(c.x as int, c.y as int, c.z as int)),
                all == Seq::new(8, |k: int| self.corner(bx, by, bz, k)),
                out@ == all.take(k as int).filter(inside),
            decreases 8 - k,
        {
            let cx: u32 = bx + k % 2;
            let cy: u32 = by + k / 2 % 2;
            let cz: u32 = bz + k / 4 % 2;
            proof {
                assert(all.take(k + 1).drop_last() =~= all.take(k as int));
                reveal(Seq::filter);
                assert(all.take(k + 1).last() == self.corner(bx, by, bz, k as int));
            }
            if cx < self.dims.nx && cy < self.dims.ny && cz < self.dims.nz {
                proof {
                    law_probe_index_is_in_range(d, cx as int, cy as int, cz as int);
                    let (nx, ny) = (d.nx as int, d.ny as int);
                    let layer = nx * ny;
                    assert(cy * nx >= 0 && cz * layer >= 0 && layer >= 0) by (nonlinear_arith)
                        requires
                            cy >= 0,
                            cz >= 0,
                            nx >= 0,
                            ny >= 0,
                            layer == nx * ny,
                    ;
                    assert(layer <= d.count()) by (nonlinear_arith)
                        requires
                            d.count() == layer * d.nz,
                            layer >= 0,
                            d.nz >= 1,
                    ;
                }
                let index: u32 = cx + cy * self.dims.nx + cz * (self.dims.nx * self.dims.ny);
                out.push(Corner { x: cx, y: cy, z: cz, index });
            }
            k = k + 1;
        }
        assert(all.take(8) =~= all);
        out
    }
}

proof fn lemma_round(g: RtGi, parts: int, first: int, n: nat)
    requires
        g.wf(),
        g.scene,
        parts >= 1,
        first >= 0,
        g.updates + n <= u32::MAX,
    ensures
        ({
            let s = g.after_round(parts, first, n);
            &&& s.scene
            &&& s.nprobes == g.nprobes
            &&& s.kick == kick_left(g.kick as int, n as int)
            &&& g.updates <= s.updates <= g.updates + n
            &&& (exists|i: int|
                0 <= i < n && slice_count(g.nprobes as int, parts, #[trigger] (first + i)) > 0)
                ==> s.updates > 0
        }),
    decreases n,
{
    if n > 0 {
        lemma_round(g, parts, first, (n - 1) as nat);
        law_slice_stays_in_the_grid(g.nprobes as int, parts, first + n - 1);
    }
}

/// After the sun is overridden the next passes over consecutive slices replace what the probes
/// hold, one for each slice and one more; from then on passes blend with the steady weight.
pub proof fn law_sun_override_replaces_then_settles(
    g: RtGi,
    dir: Vec3,
    color: Vec3,
    target: u32,
    first: int,
    n: nat,
    steady: u32,
)
    requires
        g.wf(),
        g.scene,
        first >= 0,
        g.updates + n <= u32::MAX,
    ensures
        ({
            let parts = parts_for(g.nprobes as int, target as int);
            let s = g.with_sun(dir, color, target).after_round(parts, first, n);
            s.weight(None, steady) == if n < parts + 1 {
                F32_ONE
            } else {
                steady
            }
        }),
{
    let count = g.nprobes as int;
    let parts = parts_for(count, target as int);
    lemma_parts(count, target as int);
    let start = g.with_sun(dir, color, target);
    lemma_round(start, parts, first, n);
    if n >= parts + 1 {
        law_kick_reaches_every_slice(parts, first, 0);
        let i = choose|i: int|
            0 <= i < parts && #[trigger] ((first + i) % parts) == 0 && kick_left(parts + 1, i) > 0;
        lemma_slice_len(count, parts);
        assert(0int * slice_len(count, parts) == 0);
        assert(slice_count(count, parts, first + i) > 0);
    }
}

/// While full-weight passes are owed any pass without a weight of its own replaces, whichever
/// slices are asked for, and each pays off one, recorded or not.
pub proof fn law_owed_passes_replace(g: RtGi, parts: int, part: int, steady: u32)
    requires
        g.wf(),
        g.scene,
        parts >= 1,
        part >= 0,
        g.kick > 0,
    ensures
        g.weight(None, steady) == F32_ONE,
        g.after_pass(parts, part).kick == g.kick - 1,
{
}

/// The last cell that still has a probe behind it, or `c` where that comes first.
pub open spec fn base_cell(n: u32, c: u32) -> u32 {
    if n < 2 {
        0
    } else if c > n - 2 {
        (n - 2) as u32
    } else {
        c
    }
}

fn clamp_cell(n: u32, c: u32) -> (r: u32)
    ensures
        r == base_cell(n, c),
{
    if n < 2 {
        0
    } else if c > n - 2 {
        n - 2
    } else {
        c
    }
}

/// The half-precision pattern at byte offset `o`, least significant byte first.
pub open spec fn half_at(data: Seq<u8>, o: int) -> u16 {
    (data[o] + 0x100 * data[o + 1]) as u16
}

/// Bytes between the faces of a cube that was read back one texel per face.
pub const FACE_STRIDE: usize = 256;

/// `faces` are the first three numbers of each face.
pub open spec fn are_face_colors(data: Seq<u8>, faces: Seq<Vec3>) -> bool {
    &&& faces.len() == 6
    &&& forall|f: int|
        0 <= f < 6 ==> {
            let c = #[trigger] faces[f];
            &&& f32bits::widens_half(half_at(data, f * FACE_STRIDE), c.x)
            &&& f32bits::widens_half(half_at(data, f * FACE_STRIDE + 2), c.y)
            &&& f32bits::widens_half(half_at(data, f * FACE_STRIDE + 4), c.z)
        }
}

/// The colours of the six faces of a cube that was read back one half-precision texel per face.
pub fn face_colors(data: &[u8]) -> (faces: Vec<Vec3>)
    requires
        data@.len() >= 6 * FACE_STRIDE,
    ensures
        are_face_colors(data@, faces@),
{
    let mut faces: Vec<Vec3> = Vec::new();
    let mut f: usize = 0;
    while f < 6
        invariant
            f <= 6,
            faces@.len() == f,
            data@.len() >= 6 * FACE_STRIDE,
            forall|g: int|
                0 <= g < f ==> {
                    let c = #[trigger] faces@[g];
                    &&& f32bits::widens_half(half_at(data@, g * FACE_STRIDE), c.x)
                    &&& f32bits::widens_half(half_at(data@, g * FACE_STRIDE + 2), c.y)
                    &&& f32bits::widens_half(half_at(data@, g * FACE_STRIDE + 4), c.z)
                },
        decreases 6 - f,
    {
        let o: usize = f * FACE_STRIDE;
        let x: u32 = f32bits::f16_to_f32(read_half(data, o));
        let y: u32 = f32bits::f16_to_f32(read_half(data, o + 2));
        let z: u32 = f32bits::f16_to_f32(read_half(data, o + 4));
        faces.push(Vec3 { x, y, z });
        f = f + 1;
    }
    faces
}

fn read_half(data: &[u8], o: usize) -> (h: u16)
    requires
        o + 1 < data@.len(),
    ensures
        h == half_at(data@, o as int),
{
    data[o] as u16 + 0x100 * data[o + 1] as u16
}

// ---- what the parameters and the grid mean ----------------------------------------------------
/// The parameter block as the shaders declare it: ten vectors of four words, in this order.
pub proof fn law_parameter_block(p: GiParams)
    ensures
        ({
            let w = crate::words::lane_words(p.lanes());
            &&& w.len() == 40
            &&& crate::words::lanes_at(w, 0, p.origin)
            &&& crate::words::lanes_at(w, 4, p.dims)
            &&& crate::words::lanes_at(w, 8, p.sun_dir)
            &&& crate::words::lanes_at(w, 12, p.sun_color)
            &&& crate::words::lanes_at(w, 16, p.sky_color)
            &&& crate::words::lanes_at(w, 20, p.misc)
            &&& crate::words::lanes_at(w, 24, p.misc2)
            &&& crate::words::lanes_at(w, 28, p.fog)
            &&& crate::words::lanes_at(w, 32, p.bias)
            &&& crate::words::lanes_at(w, 36, p.nee)
        }),
{
}

/// What a scene puts into each word of the parameter block.
pub proof fn law_scene_words(
    g: RtGi,
    s: RtGiScene,
    spacing: u32,
    dims: Dims,
    sky: ScaledSky,
    captured: bool,
    t: Tuning,
)
    requires
        g.wf(),
        1 <= dims.count() <= MAX_PROBES,
        s.nodes@.len() <= u32::MAX,
        s.tris@.len() <= u32::MAX,
        s.lights@.len() <= u32::MAX,
        s.emitters@.len() <= u32::MAX,
    ensures
        ({
            let p = scene_params(g, s, spacing, dims, sky, captured, t);
            let w = crate::words::lane_words(p.lanes());
            &&& (w[0], w[1], w[2]) == (s.bounds_min.x, s.bounds_min.y, s.bounds_min.z)
            &&& w[3] == spacing
            &&& (w[4], w[5], w[6]) == (dims.nx, dims.ny, dims.nz)
            &&& w[7] == 1 <==> g.enabled
            &&& w[7] == 0 <==> !g.enabled
            &&& (w[8], w[9], w[10]) == (s.sun_dir.x, s.sun_dir.y, s.sun_dir.z)
            &&& w[11] == F32_ONE <==> captured && !t.no_cube
            &&& w[11] == 0 <==> !captured || t.no_cube
            &&& (w[12], w[13], w[14]) == (sky.sun_color.x, sky.sun_color.y, sky.sun_color.z)
            &&& w[15] == sky.cube_gain
            &&& (w[16], w[17], w[18]) == (sky.sky_color.x, sky.sky_color.y, sky.sky_color.z)
            &&& t.ground matches Some(x) ==> w[19] == x
            &&& t.ground is None ==> w[19] == DEFAULT_GROUND
            &&& w[20] == 0 && w[21] == g.rays_per_thread
            &&& 32 * w[22] <= s.nodes@.len() < 32 * (w[22] + 1)
            &&& 48 * w[23] <= s.tris@.len() < 48 * (w[23] + 1)
            &&& w[24] == s.lights@.len()
            &&& w[25] == s.emitters@.len()
            &&& w[26] == dims.nx * dims.ny * dims.nz
            &&& w[27] == 0
            &&& w[28] == s.fog_sigma && w[29] == s.fog_top
            &&& w[30] == s.total_emitter_weight
            &&& w[31] == F32_ONE
            &&& w[32] == NORMAL_BIAS && w[33] == VIEW_BIAS && w[34] == VIS_RANGE
            &&& t.gain matches Some(x) ==> w[35] == x
            &&& t.gain is None ==> w[35] == DEFAULT_GAIN
            &&& t.nee is None ==> w[36] == F32_TWO
            &&& t.cap is None ==> w[37] == DEFAULT_CAP
            &&& t.nee_margin is None ==> w[38] == DEFAULT_NEE_MARGIN
            &&& !f32bits::f32_less(w[36], 0) && !f32bits::f32_less(MAX_NEE, w[36])
            &&& t.nee matches Some(x) ==> (!f32bits::f32_less(x, 0) && !f32bits::f32_less(
                MAX_NEE,
                x,
            ) ==> w[36] == x)
            &&& !f32bits::f32_less(w[37], MIN_CAP)
            &&& t.cap matches Some(x) ==> (f32bits::f32_less(MIN_CAP, x) ==> w[37] == x)
            &&& !f32bits::f32_less(w[38], 0)
            &&& t.nee_margin matches Some(x) ==> (f32bits::f32_less(0, x) ==> w[38] == x)
            &&& w[39] == 0
        }),
{
    let p = scene_params(g, s, spacing, dims, sky, captured, t);
    law_parameter_block(p);
    f32bits::law_less_is_an_order(0, F32_TWO, 0);
    f32bits::law_less_is_an_order(F32_TWO, MAX_NEE, 0);
    f32bits::law_less_is_an_order(0, MAX_NEE, 0);
    f32bits::law_less_is_an_order(MIN_CAP, DEFAULT_CAP, 0);
    f32bits::law_less_is_an_order(0, DEFAULT_NEE_MARGIN, 0);
}

/// Before a scene is set nothing shines, nothing is looked up and there is nothing to trace.
pub proof fn law_initial_parameters_are_dark()
    ensures
        ({
            let p = initial_params();
            &&& p.sun_color == zero4()
            &&& (p.sky_color.x, p.sky_color.y, p.sky_color.z) == (0u32, 0u32, 0u32)
            &&& p.dims.w == 0
            &&& p.misc.z == 0 && p.misc.w == 0
            &&& p.misc2.x == 0 && p.misc2.y == 0
            &&& p.misc2.z == p.dims.x * p.dims.y * p.dims.z
            &&& p.origin == (Vec4 { x: 0, y: 0, z: 0, w: F32_ONE })
            &&& (p.dims.x, p.dims.y, p.dims.z) == (1u32, 1u32, 1u32)
            &&& p.sun_dir == (Vec4 { x: 0, y: 0, z: F32_ONE, w: 0 })
            &&& p.sky_color.w == DEFAULT_GROUND
            &&& p.misc.x == 0 && p.misc.y == 1 && p.misc2.w == 0
            &&& p.fog == (Vec4 { x: 0, y: 0, z: 0, w: F32_ONE })
            &&& p.bias == (Vec4 { x: NORMAL_BIAS, y: VIEW_BIAS, z: VIS_RANGE, w: F32_ONE })
            &&& p.nee == (Vec4 { x: F32_TWO, y: DEFAULT_CAP, z: 0, w: 0 })
        }),
{
    assert(1 * 1 * 1 == 1) by (nonlinear_arith);
}

/// A pass hands the shader its frame number, its rays, the first probe of its slice and its weight;
/// every other word is the scene's. It runs one workgroup per probe of the slice.
pub proof fn law_pass_words(g: RtGi, parts: int, part: int, weight: u32)
    requires
        g.wf(),
        parts >= 1,
        part >= 0,
        slice_count(g.nprobes as int, parts, part) > 0,
    ensures
        ({
            let n = g.nprobes as int;
            let p = g.params;
            let d = g.part_pass(parts, part, weight);
            let w = crate::words::lane_words(d.params.lanes());
            &&& w.len() == 40
            &&& w[20] == g.frame && w[21] == g.rays_per_thread
            &&& w[27] == slice_base(n, parts, part)
            &&& w[31] == weight
            &&& w[22] == p.misc.z && w[23] == p.misc.w
            &&& (w[24], w[25], w[26]) == (p.misc2.x, p.misc2.y, p.misc2.z)
            &&& (w[28], w[29], w[30]) == (p.fog.x, p.fog.y, p.fog.z)
            &&& crate::words::lanes_at(w, 0, p.origin)
            &&& crate::words::lanes_at(w, 4, p.dims)
            &&& crate::words::lanes_at(w, 8, p.sun_dir)
            &&& crate::words::lanes_at(w, 12, p.sun_color)
            &&& crate::words::lanes_at(w, 16, p.sky_color)
            &&& crate::words::lanes_at(w, 32, p.bias)
            &&& crate::words::lanes_at(w, 36, p.nee)
            &&& forall|k: int|
                0 <= k < n ==> (w[27] <= k < w[27] + d.count <==> #[trigger] slice_holds(
                    n,
                    parts,
                    part,
                    k,
                ))
        }),
{
    law_slice_stays_in_the_grid(g.nprobes as int, parts, part);
    law_parameter_block(g.part_pass(parts, part, weight).params);
}

/// A pass over the whole grid is the pass over the only slice of an undivided one.
pub proof fn law_whole_pass_is_the_only_slice(g: RtGi, weight: u32)
    requires
        g.wf(),
    ensures
        g.whole_pass(weight) == g.part_pass(1, 0, weight),
        g.whole_pass(weight).count == g.dims.nx * g.dims.ny * g.dims.nz,
{
    lemma_whole_slice(g.nprobes as int);
}

/// A recorded pass moves the counters on and changes nothing else.
pub proof fn law_recorded_pass_counts(g: RtGi, parts: int, part: int)
    requires
        g.wf(),
        g.scene,
        parts >= 1,
        part >= 0,
        slice_count(g.nprobes as int, parts, part) > 0,
        g.updates < u32::MAX,
    ensures
        ({
            let h = g.after_pass(parts, part);
            &&& h.updates == g.updates + 1
            &&& h.frame == if g.frame == u32::MAX {
                0
            } else {
                g.frame + 1
            }
            &&& h.last_dispatch_probes == slice_count(g.nprobes as int, parts, part)
            &&& h.kick == if g.kick == 0 {
                0
            } else {
                g.kick - 1
            }
            &&& h.params == g.params && h.scene && h.enabled == g.enabled
            &&& h.dims == g.dims && h.nprobes == g.nprobes && h.spacing == g.spacing
            &&& h.hysteresis == g.hysteresis && h.rays_per_thread == g.rays_per_thread
        }),
{
    law_slice_stays_in_the_grid(g.nprobes as int, parts, part);
    lemma_slice_len(g.nprobes as int, parts);
}

/// An overridden sun reaches its words; every other word of the block stays.
pub proof fn law_sun_words(g: RtGi, dir: Vec3, color: Vec3, target: u32)
    ensures
        ({
            let p = g.params;
            let w = crate::words::lane_words(g.with_sun(dir, color, target).params.lanes());
            &&& w.len() == 40
            &&& (w[8], w[9], w[10]) == (dir.x, dir.y, dir.z)
            &&& (w[12], w[13], w[14]) == (color.x, color.y, color.z)
            &&& w[11] == p.sun_dir.w && w[15] == p.sun_color.w
            &&& crate::words::lanes_at(w, 0, p.origin)
            &&& crate::words::lanes_at(w, 4, p.dims)
            &&& crate::words::lanes_at(w, 16, p.sky_color)
            &&& crate::words::lanes_at(w, 20, p.misc)
            &&& crate::words::lanes_at(w, 24, p.misc2)
            &&& crate::words::lanes_at(w, 28, p.fog)
            &&& crate::words::lanes_at(w, 32, p.bias)
            &&& crate::words::lanes_at(w, 36, p.nee)
        }),
{
    law_parameter_block(g.with_sun(dir, color, target).params);
}

/// The slices run through the grid in order, all of one length, and begin again after the last.
pub proof fn law_slices_run_in_order(n: int, parts: int, part: int)
    requires
        n >= 1,
        parts >= 1,
        part >= 0,
    ensures
        slice_base(n, parts, 0) == 0,
        part + 1 < parts ==> slice_base(n, parts, part + 1) == slice_base(n, parts, part)
            + slice_len(n, parts),
        slice_base(n, parts, part + parts) == slice_base(n, parts, part),
        (slice_len(n, parts) - 1) * parts < n <= slice_len(n, parts) * parts,
{
    lemma_slice_len(n, parts);
    let s = slice_len(n, parts);
    vstd::arithmetic::div_mod::lemma_small_mod(0, parts as nat);
    assert(0 * s == 0);
    if part + 1 < parts {
        vstd::arithmetic::div_mod::lemma_small_mod(part as nat, parts as nat);
        vstd::arithmetic::div_mod::lemma_small_mod((part + 1) as nat, parts as nat);
        assert((part + 1) * s == part * s + s) by (nonlinear_arith);
    }
    vstd::arithmetic::div_mod::lemma_mod_multiples_vanish(1, part, parts);
    assert(parts * 1 + part == part + parts);
    assert((s - 1) * parts == parts * (s - 1) && s * parts == parts * s) by (nonlinear_arith);
}

/// A frame gets no more slices than its target asks for: one slice more would be one too many.
pub proof fn law_no_more_slices_than_needed(n: int, target: int)
    requires
        n >= 1,
        target >= 64,
    ensures
        parts_for(n, target) == 1 || (parts_for(n, target) - 1) * target < n,
        parts_for(n, target) * target >= n,
{
    let q = (n + target - 1) / target;
    vstd::arithmetic::div_mod::lemma_fundamental_div_mod(n + target - 1, target);
    vstd::arithmetic::div_mod::lemma_mod_bound(n + target - 1, target);
    assert(q >= 1 && (q - 1) * target < n && q * target >= n) by (nonlinear_arith)
        requires
            n + target - 1 == target * q + (n + target - 1) % target,
            0 <= (n + target - 1) % target < target,
            n >= 1,
            target >= 64,
    ;
}

/// Probe numbers run along x first, then along y, then along z.
pub proof fn law_probe_numbers_run_along_the_axes(d: Dims, x: int, y: int, z: int)
    ensures
        d.index(0, 0, 0) == 0,
        d.index(x + 1, y, z) == d.index(x, y, z) + 1,
        d.index(x, y + 1, z) == d.index(x, y, z) + d.nx,
        d.index(x, y, z + 1) == d.index(x, y, z) + d.nx * d.ny,
{
    let (nx, layer) = (d.nx as int, d.nx * d.ny);
    assert(0 * nx == 0 && 0 * layer == 0);
    assert((y + 1) * nx == y * nx + nx && (z + 1) * layer == z * layer + layer)
        by (nonlinear_arith);
}

/// A planned grid covers the box, axis by axis: both ends of every cell are probes, and no probe
/// lies beyond the last cell.
pub proof fn law_planned_grid_covers_the_box(
    cells: Dims,
    max_probes: u32,
    i: int,
    j: int,
    k: int,
)
    ensures
        planned_grid(cells, max_probes) matches Some(d) ==> {
            &&& d.nx - 1 == cells.nx
            &&& d.ny - 1 == cells.ny
            &&& d.nz - 1 == cells.nz
            &&& 0 <= i < cells.nx && 0 <= j < cells.ny && 0 <= k < cells.nz ==> d.holds(i, j, k)
                && d.holds(i + 1, j + 1, k + 1)
            &&& d.holds(i, j, k) ==> i <= cells.nx && j <= cells.ny && k <= cells.nz
        },
{
    let (a, b, c) = (cells.nx + 1, cells.ny + 1, cells.nz + 1);
    assert(a <= a * b * c && b <= a * b * c && c <= a * b * c) by (nonlinear_arith)
        requires
            a >= 1,
            b >= 1,
            c >= 1,
    ;
}

/// A grid is refused only where it would be over the cap while some axis can still be coarser, and
/// a larger cap never changes or refuses a grid that a smaller one allowed.
pub proof fn law_planned_grid_is_refused_only_over_the_cap(cells: Dims, cap: u32, more: u32)
    requires
        cap <= more,
    ensures
        planned_grid(cells, cap) is None <==> (cells.nx + 1) * (cells.ny + 1) * (cells.nz + 1) > cap
            && (cells.nx > 1 || cells.ny > 1 || cells.nz > 1),
        planned_grid(cells, cap) is Some ==> planned_grid(cells, more) == planned_grid(cells, cap),
{
}

/// The cell of a point is the point's own where the grid has it, else the last one along the axis.
pub proof fn law_base_cell_is_the_nearest(n: u32, c: u32)
    requires
        n >= 2,
    ensures
        base_cell(n, c) + 1 < n,
        c + 1 < n ==> base_cell(n, c) == c,
        c + 1 >= n ==> base_cell(n, c) + 2 == n,
{
}

/// Corner `k` of a cell lies one step along each axis whose bit is set in `k`, and carries the
/// number of its grid position.
pub proof fn law_corners_step_along_their_bits(g: RtGi, x: u32, y: u32, z: u32, k: int)
    requires
        g.wf(),
        0 <= k < 8,
        g.dims.holds(x + 1, y + 1, z + 1),
    ensures
        ({
            let c = g.corner(x, y, z, k);
            &&& c.x == x + if k == 1 || k == 3 || k == 5 || k == 7 {
                1int
            } else {
                0int
            }
            &&& c.y == y + if k == 2 || k == 3 || k == 6 || k == 7 {
                1int
            } else {
                0int
            }
            &&& c.z == z + if k >= 4 {
                1int
            } else {
                0int
            }
            &&& c.index == c.x + c.y * g.dims.nx + c.z * (g.dims.nx * g.dims.ny)
        }),
{
    law_probe_index_is_in_range(g.dims, x + k % 2, y + k / 2 % 2, z + k / 4 % 2);
}

/// Each record of the probe update is bound to the slot at which the shader declares it.
pub proof fn law_probe_records_have_their_slots(captured: bool)
    ensures
        ({
            let b = probe_slots(captured);
            &&& b.len() == 11
            &&& b[0] == (ProbeBinding { binding: 0, resource: ProbeResource::Nodes })
            &&& b[1] == (ProbeBinding { binding: 1, resource: ProbeResource::Tris })
            &&& b[2] == (ProbeBinding { binding: 2, resource: ProbeResource::TriMat })
            &&& b[3] == (ProbeBinding { binding: 3, resource: ProbeResource::Mats })
            &&& b[4] == (ProbeBinding { binding: 4, resource: ProbeResource::Lights })
            &&& b[5] == (ProbeBinding { binding: 5, resource: ProbeResource::Emitters })
            &&& b[6] == (ProbeBinding { binding: 6, resource: ProbeResource::Params })
            &&& b[7] == (ProbeBinding { binding: 7, resource: ProbeResource::Probes })
            &&& b[8] == (ProbeBinding { binding: 8, resource: ProbeResource::Visibility })
            &&& b[9].binding == 9 && b[9].resource == (ProbeResource::SkyCube { captured })
            &&& b[10].binding == 10 && b[10].resource == (ProbeResource::SkySampler { captured })
        }),
{
}

/// The probe buffers grow by 160 and 512 bytes per probe: ten vectors, and sixty-four texels of two
/// numbers.
pub proof fn law_probe_record_sizes(n: int)
    ensures
        probe_bytes_of(n + 1) - probe_bytes_of(n) == 160,
        vis_bytes_of(n + 1) - vis_bytes_of(n) == 512,
        probe_bytes_of(0) == 0,
        vis_bytes_of(0) == 0,
{
    lemma_record_bytes(0);
    lemma_record_bytes(n);
    lemma_record_bytes(n + 1);
}

/// A scene's own materials are uploaded as they are; one without gets a half-grey surface.
pub proof fn law_materials_are_kept(mats: Seq<Vec4>)
    ensures
        mats.len() >= 2 ==> uploaded_mats(mats) == mats,
        mats.len() < 2 ==> uploaded_mats(mats).len() == 2 && uploaded_mats(mats)[0].x == HALF
            && uploaded_mats(mats)[0].y == HALF && uploaded_mats(mats)[0].z == HALF,
        2 * f32bits::f32_units(HALF) == f32bits::f32_units(F32_ONE),
{
    f32bits::law_constant_values();
}

/// A half-precision number is read with its low byte first.
pub proof fn law_half_bytes(data: Seq<u8>, o: int)
    ensures
        half_at(data, o) % 256 == data[o],
        half_at(data, o) / 256 == data[o + 1],
{
}

/// The numbers that hold when nothing is set, and the limits: hysteresis 0.92 and at most 0.99,
/// energy scale 1.3 and between 0.01 and 16, a quarter of the sky from below, at most 64 emitter
/// samples, a cap of 12 and at least 0.1, a margin of 0.05; and the biases of the lookup.
pub proof fn law_tuning_defaults()
    ensures
        f32bits::is_nearest(DEFAULT_HYSTERESIS, 92, 100),
        f32bits::is_nearest(MAX_HYSTERESIS, 99, 100),
        f32bits::is_nearest(DEFAULT_GAIN, 13, 10),
        f32bits::is_nearest(MIN_GAIN, 1, 100),
        f32bits::f32_units(MAX_GAIN) == 16 * f32bits::f32_units(F32_ONE),
        f32bits::is_nearest(DEFAULT_GROUND, 1, 4),
        f32bits::f32_units(MAX_NEE) == 64 * f32bits::f32_units(F32_ONE),
        f32bits::f32_units(DEFAULT_CAP) == 12 * f32bits::f32_units(F32_ONE),
        f32bits::is_nearest(MIN_CAP, 1, 10),
        f32bits::is_nearest(DEFAULT_NEE_MARGIN, 5, 100),
        f32bits::is_nearest(NORMAL_BIAS, 2, 10),
        f32bits::is_nearest(VIEW_BIAS, 3, 10),
        f32bits::is_nearest(VIS_RANGE, 3, 2),
        NODE_BYTES == 32 && TRI_BYTES == 48 && MAX_PROBES == 32768,
{
    vstd::arithmetic::power2::lemma2_to64();
    f32bits::lemma_nearest(0x3f6b_851f, 126, 0x6b851f, 92, 100);
    f32bits::lemma_nearest(0x3f7d_70a4, 126, 0x7d70a4, 99, 100);
    f32bits::lemma_nearest(0x3fa6_6666, 127, 0x266666, 13, 10);
    f32bits::lemma_nearest(0x3c23_d70a, 120, 0x23d70a, 1, 100);
    f32bits::lemma_nearest(0x3dcc_cccd, 123, 0x4ccccd, 1, 10);
    f32bits::lemma_nearest(0x3d4c_cccd, 122, 0x4ccccd, 5, 100);
    f32bits::lemma_nearest(0x3e4c_cccd, 124, 0x4ccccd, 2, 10);
    f32bits::lemma_nearest(0x3e99_999a, 125, 0x19999a, 3, 10);
    f32bits::lemma_nearest(0x3e80_0000, 125, 0x0, 1, 4);
    f32bits::lemma_nearest(0x3fc0_0000, 127, 0x400000, 3, 2);
    f32bits::lemma_whole_number(0x4180_0000, 131, 0x0, 16);
    f32bits::lemma_whole_number(0x4280_0000, 133, 0x0, 64);
    f32bits::lemma_whole_number(0x4140_0000, 130, 0x400000, 12);
}

/// The colour of face `f` stands at byte `256 * f`: red, green and blue, two bytes each, the low
/// one first.
pub proof fn law_face_bytes(data: Seq<u8>, faces: Seq<Vec3>, f: int)
    requires
        are_face_colors(data, faces),
        0 <= f < 6,
    ensures
        ({
            let o = 256 * f;
            &&& f32bits::widens_half((data[o] + 256 * data[o + 1]) as u16, faces[f].x)
            &&& f32bits::widens_half((data[o + 2] + 256 * data[o + 3]) as u16, faces[f].y)
            &&& f32bits::widens_half((data[o + 4] + 256 * data[o + 5]) as u16, faces[f].z)
        }),
{
    let c = faces[f];
}

/// What is uploaded in place of nothing: one zero index, one light and one emitter that shine
/// nowhere; everything else is uploaded as it is.
pub proof fn law_placeholders_are_dark(
    m: Seq<u32>,
    ls: Seq<GpuLight>,
    es: Seq<GpuEmitter>,
    k: int,
)
    requires
        0 <= k < 16,
    ensures
        m.len() > 0 ==> uploaded_tri_mat(m) == m,
        ls.len() > 0 ==> uploaded_lights(ls) == ls,
        es.len() > 0 ==> uploaded_emitters(es) == es,
        m.len() == 0 ==> uploaded_tri_mat(m).len() == 1 && uploaded_tri_mat(m)[0] == 0,
        ls.len() == 0 ==> {
            let w = crate::words::lane_words(light_lanes(uploaded_lights(ls)));
            w.len() == 16 && w[k] == 0
        },
        es.len() == 0 ==> {
            let w = crate::words::lane_words(emitter_lanes(uploaded_emitters(es)));
            w.len() == 16 && w[k] == 0
        },
{
    let n = k / 4;
    assert(0 <= n < 4 && n / 4 == 0);
}

/// A new grid has no scene, one probe and nothing owed; its lookups are off. The hysteresis is the
/// given one between 0 and the limit.
pub proof fn law_new_grid_is_idle(rays: Option<&str>, hysteresis: Option<u32>)
    ensures
        ({
            let g = initial_state(rays, hysteresis);
            &&& !g.scene && !g.enabled && g.params.dims.w == 0
            &&& g.updates == 0 && g.frame == 0 && g.kick == 0 && g.last_dispatch_probes == 0
            &&& g.nprobes == 1 && g.dims.nx == 1 && g.dims.ny == 1 && g.dims.nz == 1
            &&& 1 <= g.rays_per_thread <= 4
            &&& !f32bits::f32_less(g.hysteresis, 0) && !f32bits::f32_less(
                MAX_HYSTERESIS,
                g.hysteresis,
            )
            &&& hysteresis is None ==> g.hysteresis == DEFAULT_HYSTERESIS
            &&& hysteresis matches Some(x) ==> (!f32bits::f32_less(x, 0) && !f32bits::f32_less(
                MAX_HYSTERESIS,
                x,
            ) ==> g.hysteresis == x)
        }),
{
    f32bits::law_less_is_an_order(0, MAX_HYSTERESIS, 0);
    f32bits::law_less_is_an_order(0, DEFAULT_HYSTERESIS, 0);
    f32bits::law_less_is_an_order(DEFAULT_HYSTERESIS, MAX_HYSTERESIS, 0);
    f32bits::law_clamped_lies_between(
        or_default(hysteresis, DEFAULT_HYSTERESIS),
        0,
        MAX_HYSTERESIS,
    );
}

/// A scene starts its counters over on its own grid; what was set about the passes stays.
pub proof fn law_scene_starts_over(
    g: RtGi,
    s: RtGiScene,
    spacing: u32,
    dims: Dims,
    sky: ScaledSky,
    captured: bool,
    t: Tuning,
)
    requires
        g.wf(),
        1 <= dims.count() <= MAX_PROBES,
    ensures
        ({
            let h = g.with_scene(s, spacing, dims, sky, captured, t);
            &&& h.scene && h.frame == 0 && h.updates == 0
            &&& h.nprobes == dims.nx * dims.ny * dims.nz
            &&& h.dims == dims && h.spacing == spacing
            &&& h.enabled == g.enabled && h.kick == g.kick && h.hysteresis == g.hysteresis
            &&& h.rays_per_thread == g.rays_per_thread
            &&& h.last_dispatch_probes == g.last_dispatch_probes
            &&& h.weight(None, 0) == F32_ONE
        }),
{
}

/// Switching the lookups changes the mode word alone, which is on exactly while they are on and a
/// scene is there; only the last switch counts.
pub proof fn law_switch_changes_the_mode_alone(g: RtGi, on: bool, again: bool)
    ensures
        ({
            let h = g.with_enabled(on);
            let w = crate::words::lane_words(h.params.lanes());
            &&& h.enabled == on
            &&& w[7] == 1 || w[7] == 0
            &&& w[7] == 1 <==> on && g.scene
            &&& (w[4], w[5], w[6]) == (g.params.dims.x, g.params.dims.y, g.params.dims.z)
            &&& crate::words::lanes_at(w, 0, g.params.origin)
            &&& crate::words::lanes_at(w, 8, g.params.sun_dir)
            &&& crate::words::lanes_at(w, 12, g.params.sun_color)
            &&& crate::words::lanes_at(w, 16, g.params.sky_color)
            &&& crate::words::lanes_at(w, 20, g.params.misc)
            &&& crate::words::lanes_at(w, 24, g.params.misc2)
            &&& crate::words::lanes_at(w, 28, g.params.fog)
            &&& crate::words::lanes_at(w, 32, g.params.bias)
            &&& crate::words::lanes_at(w, 36, g.params.nee)
            &&& h.with_enabled(again) == g.with_enabled(again)
            &&& h.scene == g.scene && h.frame == g.frame && h.updates == g.updates && h.kick
                == g.kick && h.dims == g.dims && h.hysteresis == g.hysteresis
        }),
{
    law_parameter_block(g.with_enabled(on).params);
}

/// The energy scale reaches its own word alone, within its limits; only the last one counts.
pub proof fn law_gain_changes_its_word_alone(g: RtGi, gain: u32, again: u32)
    ensures
        ({
            let h = g.with_gain(gain);
            let w = crate::words::lane_words(h.params.lanes());
            &&& !f32bits::f32_less(w[35], MIN_GAIN) && !f32bits::f32_less(MAX_GAIN, w[35])
            &&& !f32bits::f32_less(gain, MIN_GAIN) && !f32bits::f32_less(MAX_GAIN, gain) ==> w[35]
                == gain
            &&& f32bits::f32_less(gain, MIN_GAIN) ==> w[35] == MIN_GAIN
            &&& f32bits::f32_less(MAX_GAIN, gain) ==> w[35] == MAX_GAIN
            &&& (w[32], w[33], w[34]) == (g.params.bias.x, g.params.bias.y, g.params.bias.z)
            &&& crate::words::lanes_at(w, 0, g.params.origin)
            &&& crate::words::lanes_at(w, 4, g.params.dims)
            &&& crate::words::lanes_at(w, 8, g.params.sun_dir)
            &&& crate::words::lanes_at(w, 12, g.params.sun_color)
            &&& crate::words::lanes_at(w, 16, g.params.sky_color)
            &&& crate::words::lanes_at(w, 20, g.params.misc)
            &&& crate::words::lanes_at(w, 24, g.params.misc2)
            &&& crate::words::lanes_at(w, 28, g.params.fog)
            &&& crate::words::lanes_at(w, 36, g.params.nee)
            &&& h.with_gain(again) == g.with_gain(again)
            &&& h.with_gain(w[35]) == h
        }),
{
    law_parameter_block(g.with_gain(gain).params);
    f32bits::law_less_is_an_order(MIN_GAIN, MAX_GAIN, 0);
    f32bits::law_clamped_lies_between(gain, MIN_GAIN, MAX_GAIN);
}

/// Without its scene a grid is off and records nothing; the rest of its state stays.
pub proof fn law_cleared_grid_is_off(g: RtGi, parts: int, part: int)
    requires
        g.wf(),
    ensures
        ({
            let h = g.cleared();
            &&& !h.scene && !h.enabled && h.params.dims.w == 0
            &&& h.wf()
            &&& h.after_pass(parts, part) == h
            &&& h.with_enabled(true).params.dims.w == 0
            &&& h.dims == g.dims && h.nprobes == g.nprobes && h.spacing == g.spacing
            &&& h.frame == g.frame && h.updates == g.updates && h.kick == g.kick
            &&& h.params == (GiParams { dims: h.params.dims, ..g.params })
        }),
{
}

/// A kick owes one full-weight pass per slice and one more, and changes nothing else; an overridden
/// sun brings one.
pub proof fn law_kick_owes_every_slice(g: RtGi, dir: Vec3, color: Vec3, target: u32)
    requires
        g.wf(),
    ensures
        g.kicked(target).kick == parts_for(g.nprobes as int, target as int) + 1,
        g.kicked(target).kick >= 2,
        g.kicked(target).params == g.params,
        g.kicked(target).updates == g.updates && g.kicked(target).frame == g.frame,
        g.with_sun(dir, color, target).kick == g.kicked(target).kick,
        g.with_sun(dir, color, target).updates == g.updates,
        g.with_sun(dir, color, target).enabled == g.enabled,
{
    lemma_parts(g.nprobes as int, target as int);
}

/// The weight of a pass: the given one; else a full one while a replacement is owed or nothing was
/// recorded yet, and the steady one afterwards.
pub proof fn law_pass_weight(g: RtGi, blend: Option<u32>, steady: u32)
    ensures
        blend matches Some(a) ==> g.weight(blend, steady) == a,
        blend is None && g.kick == 0 && g.updates > 0 ==> g.weight(blend, steady) == steady,
        blend is None && g.kick > 0 ==> g.weight(blend, steady) == F32_ONE,
        blend is None && g.updates == 0 ==> g.weight(blend, steady) == F32_ONE,
{
}

/// A frame that should update fewer than 64 probes is split as if into waves of 64: one more slice
/// would ask for more probes than there are, rounded up by the target.
pub proof fn law_small_targets_count_as_waves(n: int, target: int)
    requires
        n >= 1,
        0 <= target < 64,
    ensures
        parts_for(n, target) == 1 || 64 * parts_for(n, target) <= n + target - 1,
        64 * (parts_for(n, target) + 1) > n + target - 1,
{
}

/// A warm-up is one pass over the whole grid per weight, in their order, each with the next frame
/// number and nothing else changed; it counts as that many updates.
pub proof fn law_warm_up_takes_the_weights_in_order(g: RtGi, weights: Seq<u32>, i: int)
    requires
        g.wf(),
        g.scene,
        g.frame + weights.len() <= u32::MAX,
        g.updates + weights.len() <= u32::MAX,
        0 <= i < weights.len(),
    ensures
        g.warm_up_passes(weights).len() == weights.len(),
        ({
            let d = g.warm_up_passes(weights)[i];
            let w = crate::words::lane_words(d.params.lanes());
            &&& d.count == g.nprobes
            &&& w[20] == g.frame + i
            &&& w[31] == weights[i]
            &&& w[27] == 0
            &&& crate::words::lanes_at(w, 0, g.params.origin)
            &&& crate::words::lanes_at(w, 8, g.params.sun_dir)
            &&& crate::words::lanes_at(w, 12, g.params.sun_color)
        }),
        g.after_passes(weights.len()).updates == g.updates + weights.len(),
{
    lemma_after_passes(g, i as nat);
    lemma_after_passes(g, weights.len());
    law_parameter_block(g.warm_up_passes(weights)[i].params);
}

proof fn lemma_after_passes(g: RtGi, n: nat)
    requires
        g.wf(),
        g.scene,
        g.frame + n <= u32::MAX,
        g.updates + n <= u32::MAX,
    ensures
        ({
            let h = g.after_passes(n);
            &&& h.wf() && h.scene
            &&& h.params == g.params && h.nprobes == g.nprobes
            &&& h.frame == g.frame + n && h.updates == g.updates + n
        }),
    decreases n,
{
    if n > 0 {
        lemma_after_passes(g, (n - 1) as nat);
        lemma_whole_slice(g.nprobes as int);
    }
}

} // verus!
