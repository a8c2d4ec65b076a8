//! Meshes: vertex and instance records, materials, and what an upload sends to the GPU.

use crate::f32bits::{F32_MINUS_ONE, F32_ONE, F32_TWO};
use crate::layout;
use crate::layout::{Binding, Cube, Resource, SamplerId, Tex};
use crate::memprof;
use crate::memprof::MemProf;
use crate::pipeline::{MaterialLayout, MeshRenderer};
use crate::texture;
use crate::texture::{CubeTarget, TexelFormat, TexturePlan};
use crate::words::{upload_bytes, words_of, zero4, Vec2, Vec3, Vec4};
use vstd::prelude::*;

verus! {

// ---- records ----------------------------------------------------------------------------------
/// Interleaved render vertex.
#[derive(Clone, Copy, Debug, PartialEq, Eq, Structural)]
pub struct MeshVertex {
    pub pos: Vec3,
    pub normal: Vec3,
    pub uv: Vec2,
    /// Multiplies the shaded output; white where nothing is baked.
    pub color: Vec4,
    /// World-space sway basis of decorators.
    pub sway: Vec3,
    /// Lightmap coordinates, local to the submap.
    pub uv2: Vec2,
    /// Tangent and handedness; zero where the shader derives the frame itself.
    pub tangent: Vec4,
}

pub open spec fn default_vertex() -> MeshVertex {
    MeshVertex {
        pos: Vec3 { x: 0, y: 0, z: 0 },
        normal: Vec3 { x: 0, y: 0, z: F32_ONE },
        uv: Vec2 { x: 0, y: 0 },
        color: white(),
        sway: Vec3 { x: 0, y: 0, z: 0 },
        uv2: Vec2 { x: 0, y: 0 },
        tangent: zero4(),
    }
}

impl Default for MeshVertex {
    fn default() -> (v: Self)
        ensures
            v == default_vertex(),
    {
        MeshVertex {
            pos: Vec3 { x: 0, y: 0, z: 0 },
            normal: Vec3 { x: 0, y: 0, z: F32_ONE },
            uv: Vec2 { x: 0, y: 0 },
            color: white(),
            sway: Vec3 { x: 0, y: 0, z: 0 },
            uv2: Vec2 { x: 0, y: 0 },
            tangent: zero4(),
        }
    }
}

/// All four lanes 1.
#[verifier::allow_in_spec]
pub fn white() -> Vec4
    returns
        (Vec4 { x: F32_ONE, y: F32_ONE, z: F32_ONE, w: F32_ONE }),
{
    Vec4 { x: F32_ONE, y: F32_ONE, z: F32_ONE, w: F32_ONE }
}

impl MeshVertex {
    /// The record as the GPU reads it.
    pub open spec fn words(self) -> Seq<u32> {
        seq![
            self.pos.x,
            self.pos.y,
            self.pos.z,
            self.normal.x,
            self.normal.y,
            self.normal.z,
            self.uv.x,
            self.uv.y,
            self.color.x,
            self.color.y,
            self.color.z,
            self.color.w,
            self.sway.x,
            self.sway.y,
            self.sway.z,
            self.uv2.x,
            self.uv2.y,
            self.tangent.x,
            self.tangent.y,
            self.tangent.z,
            self.tangent.w,
        ]
    }

    fn record(&self) -> (out: Vec<u32>)
        ensures
            out@ == self.words(),
    {
        let out: Vec<u32> = vec![
            self.pos.x,
            self.pos.y,
            self.pos.z,
            self.normal.x,
            self.normal.y,
            self.normal.z,
            self.uv.x,
            self.uv.y,
            self.color.x,
            self.color.y,
            self.color.z,
            self.color.w,
            self.sway.x,
            self.sway.y,
            self.sway.z,
            self.uv2.x,
            self.uv2.y,
            self.tangent.x,
            self.tangent.y,
            self.tangent.z,
            self.tangent.w,
        ];
        assert(out@ =~= self.words());
        out
    }
}

/// Each vertex attribute addresses its field in the record.
pub proof fn law_vertex_attributes_address_the_fields(v: MeshVertex)
    ensures
        ({
            let w = v.words();
            let at = |i: int| layout::vertex_attrs()[i].offset as int / 4;
            &&& w.len() == layout::VERTEX_WORDS
            &&& (w[at(0)], w[at(0) + 1], w[at(0) + 2]) == (v.pos.x, v.pos.y, v.pos.z)
            &&& (w[at(1)], w[at(1) + 1], w[at(1) + 2]) == (v.normal.x, v.normal.y, v.normal.z)
            &&& (w[at(2)], w[at(2) + 1]) == (v.uv.x, v.uv.y)
            &&& (w[at(3)], w[at(3) + 1], w[at(3) + 2], w[at(3) + 3]) == (
                v.color.x,
                v.color.y,
                v.color.z,
                v.color.w,
            )
            &&& (w[at(4)], w[at(4) + 1], w[at(4) + 2]) == (v.sway.x, v.sway.y, v.sway.z)
            &&& (w[at(5)], w[at(5) + 1]) == (v.uv2.x, v.uv2.y)
            &&& (w[at(6)], w[at(6) + 1], w[at(6) + 2], w[at(6) + 3]) == (
                v.tangent.x,
                v.tangent.y,
                v.tangent.z,
                v.tangent.w,
            )
        }),
{
}

/// The records of a vertex list, one behind the other.
pub open spec fn vertex_words_of(vs: Seq<MeshVertex>) -> Seq<u32> {
    Seq::new(21 * vs.len(), |n: int| vs[n / 21].words()[n % 21])
}

/// Lay out a vertex list as words.
pub fn vertex_words(vs: &Vec<MeshVertex>) -> (out: Vec<u32>)
    ensures
        out@ == vertex_words_of(vs@),
{
    let mut out: Vec<u32> = Vec::new();
    let mut i: usize = 0;
    while i < vs.len()
        invariant
            i <= vs@.len(),
            out@ == vertex_words_of(vs@.take(i as int)),
        decreases vs@.len() - i,
    {
        let mut w: Vec<u32> = vs[i].record();
        out.append(&mut w);
        proof {
            let next = vertex_words_of(vs@.take(i + 1));
            assert forall|n: int| 0 <= n < next.len() implies out@[n] == next[n] by {
                if n < 21 * i {
                    assert(n / 21 < i);
                } else {
                    assert(n / 21 == i && n % 21 == n - 21 * i);
                }
            }
            assert(out@ =~= next);
        }
        i = i + 1;
    }
    assert(vs@.take(vs@.len() as int) =~= vs@);
    out
}

/// The vertex and index bytes of a mesh, as they go into its two buffers. Independent of everything
/// else about the mesh, so that lists can be laid out in parallel.
pub fn make_geom_buffers(verts: &Vec<MeshVertex>, indices: &Vec<u32>) -> (r: (Vec<u8>, Vec<u8>))
    ensures
        crate::words::is_native_image(vertex_words_of(verts@), r.0@),
        crate::words::is_native_image(indices@, r.1@),
{
    let w: Vec<u32> = vertex_words(verts);
    let vb: Vec<u8> = vstd::slice::slice_to_vec(upload_bytes(w.as_slice()));
    let ib: Vec<u8> = vstd::slice::slice_to_vec(upload_bytes(indices.as_slice()));
    (vb, ib)
}

/// A matrix by its columns.
#[derive(Clone, Copy, Debug, PartialEq, Eq, Structural)]
pub struct Mat4 {
    pub x_axis: Vec4,
    pub y_axis: Vec4,
    pub z_axis: Vec4,
    pub w_axis: Vec4,
}

/// The identity.
#[verifier::allow_in_spec]
pub fn identity() -> Mat4
    returns
        (Mat4 {
            x_axis: Vec4 { x: F32_ONE, y: 0, z: 0, w: 0 },
            y_axis: Vec4 { x: 0, y: F32_ONE, z: 0, w: 0 },
            z_axis: Vec4 { x: 0, y: 0, z: F32_ONE, w: 0 },
            w_axis: Vec4 { x: 0, y: 0, z: 0, w: F32_ONE },
        }),
{
    Mat4 {
        x_axis: Vec4 { x: F32_ONE, y: 0, z: 0, w: 0 },
        y_axis: Vec4 { x: 0, y: F32_ONE, z: 0, w: 0 },
        z_axis: Vec4 { x: 0, y: 0, z: F32_ONE, w: 0 },
        w_axis: Vec4 { x: 0, y: 0, z: 0, w: F32_ONE },
    }
}

/// One instance: its placement, then the material and object lanes.
#[derive(Clone, Copy, Debug, PartialEq, Eq, Structural)]
pub struct InstanceRaw {
    pub model: Mat4,
    pub color: Vec4,
    /// scroll rate, base tile
    pub scroll: Vec4,
    pub detail_xform: Vec4,
    /// density, specular from alpha, specular strength, roughness
    pub aux: Vec4,
    /// lightmap flag, scale, compression constant, mode
    pub lm: Vec4,
    pub spec2: Vec4,
    pub bump_xform: Vec4,
    pub fine_xform: Vec4,
    pub bump_detail_xform: Vec4,
    pub env_ctl: Vec4,
    /// material model + 1; 0 where unset
    pub matmodel: u32,
    pub si_ctl: Vec4,
    pub mattex: Vec4,
    pub mattex_xform: Vec4,
    pub xbump: Vec4,
    pub xctl: Vec4,
    pub obj_probe0: Vec4,
    pub obj_probe1: Vec4,
    pub spec_rgb: Vec4,
    pub fres_rgb: Vec4,
    /// packed object-lighting words
    pub obj_light: Vec4,
}

impl InstanceRaw {
    pub open spec fn front(self) -> Seq<Vec4> {
        seq![
            self.model.x_axis,
            self.model.y_axis,
            self.model.z_axis,
            self.model.w_axis,
            self.color,
            self.scroll,
            self.detail_xform,
            self.aux,
            self.lm,
            self.spec2,
            self.bump_xform,
            self.fine_xform,
            self.bump_detail_xform,
            self.env_ctl,
        ]
    }

    pub open spec fn back(self) -> Seq<Vec4> {
        seq![
            self.si_ctl,
            self.mattex,
            self.mattex_xform,
            self.xbump,
            self.xctl,
            self.obj_probe0,
            self.obj_probe1,
            self.spec_rgb,
            self.fres_rgb,
            self.obj_light,
        ]
    }

    /// The record as the GPU reads it: fourteen vectors, the material model, ten vectors.
    pub open spec fn words(self) -> Seq<u32> {
        crate::words::lane_words(self.front()) + seq![self.matmodel] + crate::words::lane_words(
            self.back(),
        )
    }

    fn record(&self) -> (out: Vec<u32>)
        ensures
            out@ == self.words(),
            out@.len() == 97,
    {
        let front: Vec<Vec4> = vec![
            self.model.x_axis,
            self.model.y_axis,
            self.model.z_axis,
            self.model.w_axis,
            self.color,
            self.scroll,
            self.detail_xform,
            self.aux,
            self.lm,
            self.spec2,
            self.bump_xform,
            self.fine_xform,
            self.bump_detail_xform,
            self.env_ctl,
        ];
        let back: Vec<Vec4> = vec![
            self.si_ctl,
            self.mattex,
            self.mattex_xform,
            self.xbump,
            self.xctl,
            self.obj_probe0,
            self.obj_probe1,
            self.spec_rgb,
            self.fres_rgb,
            self.obj_light,
        ];
        assert(front@ =~= self.front());
        assert(back@ =~= self.back());
        let mut out: Vec<u32> = words_of(&front);
        out.push(self.matmodel);
        let mut tail: Vec<u32> = words_of(&back);
        out.append(&mut tail);
        assert(out@ =~= self.words());
        out
    }
}

/// Each instance attribute addresses its lanes in the record: the vectors before the material
/// model, the material model itself, and the vectors behind it.
pub proof fn law_instance_attributes_address_the_lanes(r: InstanceRaw, i: int, c: int)
    requires
        0 <= i < 25,
        0 <= c < layout::attr_words(layout::instance_attrs()[i].format),
    ensures
        r.words().len() == layout::INSTANCE_WORDS,
        ({
            let word = r.words()[layout::instance_attrs()[i].offset as int / 4 + c];
            if i == 14 {
                word == r.matmodel
            } else {
                let v = if i < 14 {
                    r.front()[i]
                } else {
                    r.back()[i - 15]
                };
                word == v.words()[c]
            }
        }),
{
    let at = layout::instance_attrs()[i].offset as int / 4 + c;
    if i < 14 {
        assert(at == 4 * i + c);
        assert(at / 4 == i && at % 4 == c);
    } else if i > 14 {
        let n = at - 57;
        assert(n == 4 * (i - 15) + c);
        assert(n / 4 == i - 15 && n % 4 == c);
    }
}

/// The instance record word by word: the four columns of the placement, the colour, and each lane
/// at the word where the shaders read it.
pub proof fn law_instance_words(r: InstanceRaw)
    ensures
        ({
            let w = r.words();
            &&& w.len() == 97
            &&& crate::words::lanes_at(w, 0, r.model.x_axis)
            &&& crate::words::lanes_at(w, 4, r.model.y_axis)
            &&& crate::words::lanes_at(w, 8, r.model.z_axis)
            &&& crate::words::lanes_at(w, 12, r.model.w_axis)
            &&& crate::words::lanes_at(w, 16, r.color)
            &&& crate::words::lanes_at(w, 20, r.scroll)
            &&& crate::words::lanes_at(w, 24, r.detail_xform)
            &&& crate::words::lanes_at(w, 28, r.aux)
            &&& crate::words::lanes_at(w, 32, r.lm)
            &&& crate::words::lanes_at(w, 36, r.spec2)
            &&& crate::words::lanes_at(w, 40, r.bump_xform)
            &&& crate::words::lanes_at(w, 44, r.fine_xform)
            &&& crate::words::lanes_at(w, 48, r.bump_detail_xform)
            &&& crate::words::lanes_at(w, 52, r.env_ctl)
            &&& w[56] == r.matmodel
            &&& crate::words::lanes_at(w, 57, r.si_ctl)
            &&& crate::words::lanes_at(w, 61, r.mattex)
            &&& crate::words::lanes_at(w, 65, r.mattex_xform)
            &&& crate::words::lanes_at(w, 69, r.xbump)
            &&& crate::words::lanes_at(w, 73, r.xctl)
            &&& crate::words::lanes_at(w, 77, r.obj_probe0)
            &&& crate::words::lanes_at(w, 81, r.obj_probe1)
            &&& crate::words::lanes_at(w, 85, r.spec_rgb)
            &&& crate::words::lanes_at(w, 89, r.fres_rgb)
            &&& crate::words::lanes_at(w, 93, r.obj_light)
        }),
{
}

/// The vertex record word by word.
pub proof fn law_vertex_words(v: MeshVertex)
    ensures
        ({
            let w = v.words();
            &&& w.len() == 21
            &&& (w[0], w[1], w[2]) == (v.pos.x, v.pos.y, v.pos.z)
            &&& (w[3], w[4], w[5]) == (v.normal.x, v.normal.y, v.normal.z)
            &&& (w[6], w[7]) == (v.uv.x, v.uv.y)
            &&& crate::words::lanes_at(w, 8, v.color)
            &&& (w[12], w[13], w[14]) == (v.sway.x, v.sway.y, v.sway.z)
            &&& (w[15], w[16]) == (v.uv2.x, v.uv2.y)
            &&& crate::words::lanes_at(w, 17, v.tangent)
        }),
{
}

/// The records of an instance list, one behind the other.
pub open spec fn instance_words_of(rs: Seq<InstanceRaw>) -> Seq<u32> {
    Seq::new(97 * rs.len(), |n: int| rs[n / 97].words()[n % 97])
}

/// Lay out an instance list as words.
pub fn instance_words(rs: &Vec<InstanceRaw>) -> (out: Vec<u32>)
    ensures
        out@ == instance_words_of(rs@),
{
    let mut out: Vec<u32> = Vec::new();
    let mut i: usize = 0;
    while i < rs.len()
        invariant
            i <= rs@.len(),
            out@ == instance_words_of(rs@.take(i as int)),
        decreases rs@.len() - i,
    {
        let ghost before = out@;
        let mut w: Vec<u32> = rs[i].record();
        let ghost rec = w@;
        out.append(&mut w);
        proof {
            let next = instance_words_of(rs@.take(i + 1));
            assert forall|n: int| 0 <= n < next.len() implies out@[n] == next[n] by {
                if n < 97 * i {
                    assert(n / 97 < i);
                    assert(out@[n] == before[n]);
                } else {
                    assert(n / 97 == i && n % 97 == n - 97 * i);
                    assert(out@[n] == rec[n - 97 * i]);
                }
            }
            assert(out@ =~= next);
        }
        i = i + 1;
    }
    assert(rs@.take(rs@.len() as int) =~= rs@);
    out
}

// ---- lightmaps --------------------------------------------------------------------------------
/// Lightmap inputs of a mesh: the atlas views and the decode scalars.
#[derive(Clone, Copy, Debug, PartialEq, Eq, Structural)]
pub struct LightmapInputs {
    pub dm: u32,
    pub sdm: u32,
    /// Further slices; the first one stands in where they are missing.
    pub sdm1: Option<u32>,
    pub sdm2: Option<u32>,
    pub hdr: u32,
    pub k: u32,
    pub mode: u32,
}

/// The lightmap lanes: flag, scale, constant and mode with an atlas; else zero, but for the mark of
/// a dynamic object in the mode lane.
pub open spec fn lm_lanes(lm: Option<LightmapInputs>, is_object: bool) -> Vec4 {
    match lm {
        Some(l) => Vec4 { x: F32_ONE, y: l.hdr, z: l.k, w: l.mode },
        None => Vec4 {
            x: 0,
            y: 0,
            z: 0,
            w: if is_object {
                F32_TWO
            } else {
                0
            },
        },
    }
}

fn lightmap_lanes(lm: &Option<LightmapInputs>, is_object: bool) -> (v: Vec4)
    ensures
        v == lm_lanes(*lm, is_object),
{
    match lm {
        Some(l) => Vec4 { x: F32_ONE, y: l.hdr, z: l.k, w: l.mode },
        None => Vec4 {
            x: 0,
            y: 0,
            z: 0,
            w: if is_object {
                F32_TWO
            } else {
                0
            },
        },
    }
}

/// The four atlas textures: grey and black without an atlas, the first slice for a missing one.
pub open spec fn lm_textures(lm: Option<LightmapInputs>) -> (Tex, Tex, Tex, Tex) {
    match lm {
        Some(l) => (
            Tex::View(l.dm),
            Tex::View(l.sdm),
            tex_or(l.sdm1, Tex::View(l.sdm)),
            tex_or(l.sdm2, Tex::View(l.sdm)),
        ),
        None => (Tex::Grey, Tex::Black, Tex::Black, Tex::Black),
    }
}

pub(crate) fn lightmap_textures(lm: &Option<LightmapInputs>) -> (t: (Tex, Tex, Tex, Tex))
    ensures
        t == lm_textures(*lm),
{
    match lm {
        Some(l) => (
            Tex::View(l.dm),
            Tex::View(l.sdm),
            view_or(l.sdm1, Tex::View(l.sdm)),
            view_or(l.sdm2, Tex::View(l.sdm)),
        ),
        None => (Tex::Grey, Tex::Black, Tex::Black, Tex::Black),
    }
}

// ---- materials --------------------------------------------------------------------------------
/// A view where there is one, else `fallback`.
pub open spec fn tex_or(view: Option<u32>, fallback: Tex) -> Tex {
    match view {
        Some(v) => Tex::View(v),
        None => fallback,
    }
}

pub open spec fn cube_or(view: Option<u32>) -> Cube {
    match view {
        Some(v) => Cube::View(v),
        None => Cube::Captured,
    }
}

pub(crate) fn view_or(view: Option<u32>, fallback: Tex) -> (t: Tex)
    ensures
        t == tex_or(view, fallback),
{
    match view {
        Some(v) => Tex::View(v),
        None => fallback,
    }
}

pub(crate) fn env_or(view: Option<u32>) -> (c: Cube)
    ensures
        c == cube_or(view),
{
    match view {
        Some(v) => Cube::View(v),
        None => Cube::Captured,
    }
}

/// A bind group as it is created: its layout, its resources, the words of its uniform block (empty
/// where the layout has none), and the textures that are created for it alone.
pub struct Material {
    pub layout: MaterialLayout,
    pub bindings: Vec<Binding>,
    pub uniform: Vec<u32>,
    pub textures: Vec<TexturePlan>,
}

/// The sampler of a material's cube: the captured cube's, or one of the caller's.
#[derive(Clone, Copy, Debug, PartialEq, Eq, Structural)]
pub enum EnvSampler {
    Captured,
    Given(u32),
}

pub open spec fn env_sampler_resource(s: EnvSampler) -> Resource {
    match s {
        EnvSampler::Captured => Resource::Sampler(SamplerId::Env),
        EnvSampler::Given(n) => Resource::GivenSampler(n),
    }
}

/// What a mesh material binds.
#[derive(Clone, Copy, Debug, PartialEq, Eq, Structural)]
pub struct MaterialSlots {
    pub base: Tex,
    pub emissive: Tex,
    pub detail: Tex,
    pub bump: Tex,
    pub dm: Tex,
    pub sdm: Tex,
    pub sdm1: Tex,
    pub sdm2: Tex,
    pub env: Cube,
    pub env_sampler: EnvSampler,
    pub bump_detail: Tex,
    pub alpha_test: Tex,
    pub material_texture: Tex,
    pub bump_detail2: Tex,
    pub bump_detail3: Tex,
}

pub open spec fn material_bindings(s: MaterialSlots) -> Seq<Binding> {
    seq![
        Binding { binding: 0, resource: Resource::Texture(s.base) },
        Binding { binding: 1, resource: Resource::Sampler(SamplerId::Mesh) },
        Binding { binding: 2, resource: Resource::Texture(s.emissive) },
        Binding { binding: 3, resource: Resource::Texture(s.detail) },
        Binding { binding: 4, resource: Resource::Texture(s.bump) },
        Binding { binding: 5, resource: Resource::Texture(s.dm) },
        Binding { binding: 6, resource: Resource::Texture(s.sdm) },
        Binding { binding: 7, resource: Resource::Sampler(SamplerId::Lightmap) },
        Binding { binding: 8, resource: Resource::Texture(s.sdm1) },
        Binding { binding: 9, resource: Resource::Texture(s.sdm2) },
        Binding { binding: 10, resource: Resource::Cube(s.env) },
        Binding { binding: 11, resource: env_sampler_resource(s.env_sampler) },
        Binding { binding: 12, resource: Resource::Texture(s.bump_detail) },
        Binding { binding: 13, resource: Resource::Texture(s.alpha_test) },
        Binding { binding: 14, resource: Resource::Texture(s.material_texture) },
        Binding { binding: 15, resource: Resource::Texture(s.bump_detail2) },
        Binding { binding: 16, resource: Resource::Texture(s.bump_detail3) },
    ]
}

/// A mesh material fills its layout, whatever it binds.
pub proof fn law_material_fills_its_layout(s: MaterialSlots)
    ensures
        layout::fill(layout::material_entries(), material_bindings(s)),
{
}

impl MeshRenderer {
    /// The bind group of a mesh material.
    pub fn material_from_view(&self, s: MaterialSlots) -> (m: Material)
        ensures
            m.layout == MaterialLayout::Mesh,
            m.bindings@ == material_bindings(s),
            m.uniform@.len() == 0,
            m.textures@.len() == 0,
    {
        let bindings: Vec<Binding> = vec![
            Binding { binding: 0, resource: Resource::Texture(s.base) },
            Binding { binding: 1, resource: Resource::Sampler(SamplerId::Mesh) },
            Binding { binding: 2, resource: Resource::Texture(s.emissive) },
            Binding { binding: 3, resource: Resource::Texture(s.detail) },
            Binding { binding: 4, resource: Resource::Texture(s.bump) },
            Binding { binding: 5, resource: Resource::Texture(s.dm) },
            Binding { binding: 6, resource: Resource::Texture(s.sdm) },
            Binding { binding: 7, resource: Resource::Sampler(SamplerId::Lightmap) },
            Binding { binding: 8, resource: Resource::Texture(s.sdm1) },
            Binding { binding: 9, resource: Resource::Texture(s.sdm2) },
            Binding { binding: 10, resource: Resource::Cube(s.env) },
            Binding {
                binding: 11,
                resource: match s.env_sampler {
                    EnvSampler::Captured => Resource::Sampler(SamplerId::Env),
                    EnvSampler::Given(n) => Resource::GivenSampler(n),
                },
            },
            Binding { binding: 12, resource: Resource::Texture(s.bump_detail) },
            Binding { binding: 13, resource: Resource::Texture(s.alpha_test) },
            Binding { binding: 14, resource: Resource::Texture(s.material_texture) },
            Binding { binding: 15, resource: Resource::Texture(s.bump_detail2) },
            Binding { binding: 16, resource: Resource::Texture(s.bump_detail3) },
        ];
        assert(bindings@ =~= material_bindings(s));
        Material { layout: MaterialLayout::Mesh, bindings, uniform: Vec::new(), textures: Vec::new() }
    }
}

// ---- single-texel textures --------------------------------------------------------------------
pub const BLACK: [u8; 4] = [0, 0, 0, 255];

pub const GREY: [u8; 4] = [128, 128, 128, 255];

/// The unbent normal.
pub const FLAT: [u8; 4] = [128, 128, 255, 255];

pub const WHITE: [u8; 4] = [255, 255, 255, 255];

/// A texture of one RGBA texel.
pub open spec fn is_single_texel(plan: TexturePlan, texel: [u8; 4]) -> bool {
    texture::is_upload(plan, texel@, 1, 1, TexelFormat::Rgba8Unorm, true, None)
}

/// Bytes that a single-texel texture is counted with.
pub const SINGLE_TEXEL_BYTES: u64 = 5;

/// The counters after `n` single-texel textures.
pub open spec fn totals_with_texels(
    t: (u64, u64, u64, u64, u64),
    n: nat,
) -> (u64, u64, u64, u64, u64) {
    (
        t.0.wrapping_add((SINGLE_TEXEL_BYTES * n) as u64),
        t.1,
        t.2,
        t.3.wrapping_add(n as u64),
        t.4,
    )
}

/// What a label holds after `n` single-texel textures, which are noted one by one as textures with
/// a chain.
pub open spec fn notes_with_texels(
    before: Option<(u64, u64)>,
    name: Seq<char>,
    n: nat,
) -> Option<(u64, u64)> {
    if name != "tex:rgba-mips"@ || n == 0 {
        before
    } else {
        match before {
            None => Some((n as u64, (SINGLE_TEXEL_BYTES * n) as u64)),
            Some(t) => Some(
                (
                    t.0.wrapping_add(n as u64),
                    t.1.wrapping_add((SINGLE_TEXEL_BYTES * n) as u64),
                ),
            ),
        }
    }
}

/// Between `a` and `b` exactly `n` single-texel textures were counted.
pub open spec fn texels_accounted(a: MemProf, b: MemProf, n: nat) -> bool {
    &&& b.totals() == totals_with_texels(a.totals(), n)
    &&& forall|name: Seq<char>| #[trigger]
        b.category(name) == notes_with_texels(a.category(name), name, n)
}

proof fn lemma_texels_add(a: MemProf, b: MemProf, c: MemProf, m: nat, n: nat)
    requires
        texels_accounted(a, b, m),
        texels_accounted(b, c, n),
        m + n <= 16,
    ensures
        texels_accounted(a, c, m + n),
{
    assert forall|name: Seq<char>| #[trigger]
        c.category(name) == notes_with_texels(a.category(name), name, m + n) by {
        assert(b.category(name) == notes_with_texels(a.category(name), name, m));
    }
}

/// Plan and count a texture of one texel.
fn single_texel(p: &mut MemProf, texel: [u8; 4]) -> (plan: TexturePlan)
    requires
        old(p).wf(),
    ensures
        final(p).wf(),
        texels_accounted(*old(p), *final(p), 1),
        is_single_texel(plan, texel),
{
    texture::upload_texture_rgba(p, texel.as_slice(), 1, 1)
}

/// The stand-ins that all materials share, built with the first upload: three single-texel textures
/// and the captured cube.
pub struct FallbackPlan {
    pub black: TexturePlan,
    pub grey: TexturePlan,
    pub flat: TexturePlan,
    pub cube: CubeTarget,
}

/// What has to be created before a material can be bound: the stand-ins, unless they exist.
pub open spec fn is_fallback_step(r: Option<FallbackPlan>, exist: bool) -> bool {
    match r {
        None => exist,
        Some(f) => {
            &&& !exist
            &&& is_single_texel(f.black, BLACK)
            &&& is_single_texel(f.grey, GREY)
            &&& is_single_texel(f.flat, FLAT)
            &&& f.cube == texture::env_target()
        },
    }
}

/// How many single-texel textures an upload creates: three with the first, four of its own for a
/// neutral material.
pub open spec fn texels_created(exist: bool, neutral: bool) -> nat {
    (if exist {
        0nat
    } else {
        3nat
    }) + (if neutral {
        4nat
    } else {
        0nat
    })
}

impl MeshRenderer {
    /// Build the shared stand-ins where they do not exist yet.
    pub(crate) fn build_fallbacks(&mut self, p: &mut MemProf) -> (r: Option<FallbackPlan>)
        requires
            old(p).wf(),
        ensures
            final(p).wf(),
            *final(self) == (MeshRenderer { fallbacks: true, ..*old(self) }),
            texels_accounted(*old(p), *final(p), texels_created(old(self).fallbacks, false)),
            is_fallback_step(r, old(self).fallbacks),
    {
        if self.fallbacks {
            return None;
        }
        self.fallbacks = true;
        let ghost p0 = *p;
        let black: TexturePlan = single_texel(p, BLACK);
        let ghost p1 = *p;
        let grey: TexturePlan = single_texel(p, GREY);
        let ghost p2 = *p;
        let flat: TexturePlan = single_texel(p, FLAT);
        proof {
            lemma_texels_add(p0, p1, p2, 1, 1);
            lemma_texels_add(p0, p2, *p, 2, 1);
        }
        Some(FallbackPlan { black, grey, flat, cube: texture::build_env_cube() })
    }

    /// The captured cube and its sampler, once an upload has built them.
    pub fn env_cube_view(&self) -> (r: Option<(Cube, SamplerId)>)
        ensures
            r == if self.fallbacks {
                Some((Cube::Captured, SamplerId::Env))
            } else {
                None
            },
    {
        if self.fallbacks {
            Some((Cube::Captured, SamplerId::Env))
        } else {
            None
        }
    }

    /// The captured cube as a render target, once an upload has built it.
    pub fn env_cube_texture(&self) -> (r: Option<CubeTarget>)
        ensures
            r == if self.fallbacks {
                Some(texture::env_target())
            } else {
                None
            },
    {
        if self.fallbacks {
            Some(texture::build_env_cube())
        } else {
            None
        }
    }
}

/// The neutral material: its own white base, black emissive, grey detail and flat normals, no
/// atlas.
pub open spec fn default_slots() -> MaterialSlots {
    MaterialSlots {
        base: Tex::Own(0),
        emissive: Tex::Own(1),
        detail: Tex::Own(2),
        bump: Tex::Own(3),
        dm: Tex::Grey,
        sdm: Tex::Black,
        sdm1: Tex::Black,
        sdm2: Tex::Black,
        env: Cube::Captured,
        env_sampler: EnvSampler::Captured,
        bump_detail: Tex::Flat,
        alpha_test: Tex::Own(0),
        material_texture: Tex::Grey,
        bump_detail2: Tex::Flat,
        bump_detail3: Tex::Flat,
    }
}

/// The textures of a neutral material: white, black, grey, flat.
pub open spec fn are_neutral_textures(t: Seq<TexturePlan>) -> bool {
    &&& t.len() == 4
    &&& is_single_texel(t[0], WHITE)
    &&& is_single_texel(t[1], BLACK)
    &&& is_single_texel(t[2], GREY)
    &&& is_single_texel(t[3], FLAT)
}

impl MeshRenderer {
    /// The neutral material of a mesh whose base texture is missing, and the stand-ins where they
    /// have to be built for it.
    pub fn default_material(&mut self, p: &mut MemProf) -> (r: (Material, Option<FallbackPlan>))
        requires
            old(p).wf(),
        ensures
            final(p).wf(),
            *final(self) == (MeshRenderer { fallbacks: true, ..*old(self) }),
            texels_accounted(*old(p), *final(p), texels_created(old(self).fallbacks, true)),
            r.0.layout == MaterialLayout::Mesh,
            r.0.bindings@ == material_bindings(default_slots()),
            r.0.uniform@.len() == 0,
            are_neutral_textures(r.0.textures@),
            is_fallback_step(r.1, old(self).fallbacks),
    {
        let ghost p0 = *p;
        let white: TexturePlan = single_texel(p, WHITE);
        let ghost p1 = *p;
        let black: TexturePlan = single_texel(p, BLACK);
        let ghost p2 = *p;
        let grey: TexturePlan = single_texel(p, GREY);
        let ghost p3 = *p;
        let flat: TexturePlan = single_texel(p, FLAT);
        let ghost p4 = *p;
        let ghost exist = self.fallbacks;
        let fallbacks: Option<FallbackPlan> = self.build_fallbacks(p);
        proof {
            lemma_texels_add(p0, p1, p2, 1, 1);
            lemma_texels_add(p0, p2, p3, 2, 1);
            lemma_texels_add(p0, p3, p4, 3, 1);
            lemma_texels_add(p0, p4, *p, 4, texels_created(exist, false));
        }
        let mut m: Material = self.material_from_view(
            MaterialSlots {
                base: Tex::Own(0),
                emissive: Tex::Own(1),
                detail: Tex::Own(2),
                bump: Tex::Own(3),
                dm: Tex::Grey,
                sdm: Tex::Black,
                sdm1: Tex::Black,
                sdm2: Tex::Black,
                env: Cube::Captured,
                env_sampler: EnvSampler::Captured,
                bump_detail: Tex::Flat,
                alpha_test: Tex::Own(0),
                material_texture: Tex::Grey,
                bump_detail2: Tex::Flat,
                bump_detail3: Tex::Flat,
            },
        );
        m.textures.push(white);
        m.textures.push(black);
        m.textures.push(grey);
        m.textures.push(flat);
        (m, fallbacks)
    }
}

/// The views a mesh brings; each may be missing.
#[derive(Clone, Copy, Debug, PartialEq, Eq, Structural)]
pub struct MaterialViews {
    pub base: Option<u32>,
    pub emissive: Option<u32>,
    pub detail: Option<u32>,
    pub bump: Option<u32>,
    pub bump_detail: Option<u32>,
    pub alpha_test: Option<u32>,
    pub material_texture: Option<u32>,
    pub bump_detail2: Option<u32>,
    pub bump_detail3: Option<u32>,
    pub env_cube: Option<u32>,
}

/// What a mesh binds: with a base texture its own views, with a neutral stand-in for each missing
/// one (the base itself for the alpha-test map); without one the neutral material.
pub open spec fn mesh_slots(v: MaterialViews, lm: Option<LightmapInputs>) -> MaterialSlots {
    match v.base {
        None => default_slots(),
        Some(base) => MaterialSlots {
            base: Tex::View(base),
            emissive: tex_or(v.emissive, Tex::Black),
            detail: tex_or(v.detail, Tex::Grey),
            bump: tex_or(v.bump, Tex::Flat),
            dm: lm_textures(lm).0,
            sdm: lm_textures(lm).1,
            sdm1: lm_textures(lm).2,
            sdm2: lm_textures(lm).3,
            env: cube_or(v.env_cube),
            env_sampler: EnvSampler::Captured,
            bump_detail: tex_or(v.bump_detail, Tex::Flat),
            alpha_test: tex_or(v.alpha_test, Tex::View(base)),
            material_texture: tex_or(v.material_texture, Tex::Grey),
            bump_detail2: tex_or(v.bump_detail2, Tex::Flat),
            bump_detail3: tex_or(v.bump_detail3, Tex::Flat),
        },
    }
}

/// The material of a mesh: what it binds, and textures of its own only where it is neutral.
pub open spec fn is_mesh_material(
    m: Material,
    v: MaterialViews,
    lm: Option<LightmapInputs>,
) -> bool {
    &&& m.layout == MaterialLayout::Mesh
    &&& m.bindings@ == material_bindings(mesh_slots(v, lm))
    &&& m.uniform@.len() == 0
    &&& if v.base is None {
        are_neutral_textures(m.textures@)
    } else {
        m.textures@.len() == 0
    }
}

impl MeshRenderer {
    fn mesh_material(
        &mut self,
        p: &mut MemProf,
        v: &MaterialViews,
        lm: &Option<LightmapInputs>,
    ) -> (r: (Material, Option<FallbackPlan>))
        requires
            old(p).wf(),
        ensures
            final(p).wf(),
            *final(self) == (MeshRenderer { fallbacks: true, ..*old(self) }),
            texels_accounted(
                *old(p),
                *final(p),
                texels_created(old(self).fallbacks, v.base is None),
            ),
            is_mesh_material(r.0, *v, *lm),
            is_fallback_step(r.1, old(self).fallbacks),
    {
        match v.base {
            None => self.default_material(p),
            Some(base) => {
                let fallbacks: Option<FallbackPlan> = self.build_fallbacks(p);
                let t: (Tex, Tex, Tex, Tex) = lightmap_textures(lm);
                let m: Material = self.material_from_view(
                    MaterialSlots {
                        base: Tex::View(base),
                        emissive: view_or(v.emissive, Tex::Black),
                        detail: view_or(v.detail, Tex::Grey),
                        bump: view_or(v.bump, Tex::Flat),
                        dm: t.0,
                        sdm: t.1,
                        sdm1: t.2,
                        sdm2: t.3,
                        env: env_or(v.env_cube),
                        env_sampler: EnvSampler::Captured,
                        bump_detail: view_or(v.bump_detail, Tex::Flat),
                        alpha_test: view_or(v.alpha_test, Tex::View(base)),
                        material_texture: view_or(v.material_texture, Tex::Grey),
                        bump_detail2: view_or(v.bump_detail2, Tex::Flat),
                        bump_detail3: view_or(v.bump_detail3, Tex::Flat),
                    },
                );
                (m, fallbacks)
            },
        }
    }
}

// ---- meshes -----------------------------------------------------------------------------------
/// One uploaded mesh: what the draw passes know of it.
pub struct GpuMesh {
    /// Built by `upload_terrain_mesh`: drawn by the terrain pass alone.
    pub is_terrain: bool,
    /// `false`: skipped by the shadow passes.
    pub casts_shadow: bool,
    /// An object in a static list that casts into the sun shadow map.
    pub h4_caster: bool,
    /// The instance stream, so that object lanes can be patched after the upload.
    pub inst_raw: Vec<InstanceRaw>,
    pub index_count: u32,
    pub instance_count: u32,
    /// Where the mesh is sorted: mean instance translation, or the centre of a decorator group.
    pub centroid: Vec3,
    /// Decorator instances in this group; zero for other meshes, which no budget culls.
    pub deco_weight: u32,
    /// How a transparent pass blends this mesh.
    pub blend_mode: u8,
}

/// Object lighting of one instance: dominant direction, dominant colour, packed lanes.
#[derive(Clone, Copy, Debug, PartialEq, Eq, Structural)]
pub struct ObjectProbe {
    pub direction: Vec4,
    pub color: Vec4,
    pub light: Vec4,
}

/// An instance with its packed lighting replaced.
pub open spec fn with_light(r: InstanceRaw, light: Vec4) -> InstanceRaw {
    InstanceRaw { obj_light: light, ..r }
}

/// An instance with both probe lanes replaced.
pub open spec fn with_probe_lanes(r: InstanceRaw, probe0: Vec4, probe1: Vec4) -> InstanceRaw {
    InstanceRaw { obj_probe0: probe0, obj_probe1: probe1, ..r }
}

/// An instance lit by a probe.
pub open spec fn with_probe(r: InstanceRaw, p: ObjectProbe) -> InstanceRaw {
    with_light(with_probe_lanes(r, p.direction, p.color), p.light)
}

/// An instance with its material colours replaced.
pub open spec fn with_tints(r: InstanceRaw, spec_rgb: Vec4, fres_rgb: Vec4) -> InstanceRaw {
    InstanceRaw { spec_rgb, fres_rgb, ..r }
}

/// An instance with its colour replaced.
pub open spec fn with_color(r: InstanceRaw, color: Vec4) -> InstanceRaw {
    InstanceRaw { color, ..r }
}

/// A word stays where the vector that holds it does.
proof fn lemma_word_stays(a: InstanceRaw, r: InstanceRaw, k: int)
    requires
        0 <= k < 97,
        a.matmodel == r.matmodel,
        k < 56 ==> a.front()[k / 4] == r.front()[k / 4],
        k > 56 ==> a.back()[(k - 57) / 4] == r.back()[(k - 57) / 4],
    ensures
        a.words()[k] == r.words()[k],
{
}

/// A probe reaches words 77 to 84 and 93 to 96 of the record: its direction, its colour, its
/// packed lanes. Nothing else changes.
#[verifier::rlimit(40)]
pub proof fn law_probe_words(r: InstanceRaw, p: ObjectProbe, k: int)
    requires
        0 <= k < 97,
    ensures
        ({
            let w = with_probe(r, p).words();
            &&& crate::words::lanes_at(w, 77, p.direction)
            &&& crate::words::lanes_at(w, 81, p.color)
            &&& crate::words::lanes_at(w, 93, p.light)
            &&& k < 77 || 85 <= k < 93 ==> w[k] == r.words()[k]
        }),
{
    let a = with_probe(r, p);
    law_instance_words(a);
    if k < 77 || 85 <= k < 93 {
        let n = (k - 57) / 4;
        assert(57 <= k < 77 ==> 0 <= n < 5);
        assert(85 <= k ==> n == 7 || n == 8);
        lemma_word_stays(a, r, k);
    }
}

/// Material colours reach words 85 to 92 of the record, the specular one first, and an instance
/// colour words 16 to 19. Nothing else changes.
#[verifier::rlimit(40)]
pub proof fn law_tint_words(
    r: InstanceRaw,
    spec_rgb: Vec4,
    fres_rgb: Vec4,
    color: Vec4,
    k: int,
)
    requires
        0 <= k < 97,
    ensures
        ({
            let w = with_tints(r, spec_rgb, fres_rgb).words();
            &&& crate::words::lanes_at(w, 85, spec_rgb)
            &&& crate::words::lanes_at(w, 89, fres_rgb)
            &&& k < 85 || 93 <= k ==> w[k] == r.words()[k]
        }),
        ({
            let w = with_color(r, color).words();
            &&& crate::words::lanes_at(w, 16, color)
            &&& k < 16 || 20 <= k ==> w[k] == r.words()[k]
        }),
{
    let (b, c) = (with_tints(r, spec_rgb, fres_rgb), with_color(r, color));
    assert(b.words()[k] == r.words()[k] || 85 <= k < 93) by {
        if k < 85 || 93 <= k {
            let n = (k - 57) / 4;
            assert(57 <= k < 85 ==> 0 <= n < 7);
            assert(93 <= k ==> n == 9);
            lemma_word_stays(b, r, k);
        }
    }
    assert(c.words()[k] == r.words()[k] || 16 <= k < 20) by {
        if k < 16 || 20 <= k {
            let n = k / 4;
            assert(k < 16 ==> 0 <= n < 4);
            assert(20 <= k < 56 ==> 4 < n < 14);
            lemma_word_stays(c, r, k);
        }
    }
    law_instance_words(b);
    law_instance_words(c);
}

impl GpuMesh {
    /// Write the object lanes of the first instances, one probe each. Says whether the instance
    /// buffer has to be written again.
    pub fn set_instance_probes(&mut self, probes: &Vec<ObjectProbe>) -> (dirty: bool)
        ensures
            dirty == (old(self).inst_raw@.len() > 0),
            *final(self) == (GpuMesh { inst_raw: final(self).inst_raw, ..*old(self) }),
            final(self).inst_raw@ == Seq::new(
                old(self).inst_raw@.len(),
                |i: int|
                    if i < probes@.len() {
                        with_probe(old(self).inst_raw@[i], probes@[i])
                    } else {
                        old(self).inst_raw@[i]
                    },
            ),
    {
        let ghost before = *self;
        let mut i: usize = 0;
        while i < self.inst_raw.len() && i < probes.len()
            invariant
                i <= before.inst_raw@.len(),
                i <= probes@.len(),
                *self == (GpuMesh { inst_raw: self.inst_raw, ..before }),
                self.inst_raw@.len() == before.inst_raw@.len(),
                forall|k: int|
                    0 <= k < before.inst_raw@.len() ==> #[trigger] self.inst_raw@[k] == if k < i {
                        InstanceRaw {
                            obj_probe0: probes@[k].direction,
                            obj_probe1: probes@[k].color,
                            obj_light: probes@[k].light,
                            ..before.inst_raw@[k]
                        }
                    } else {
                        before.inst_raw@[k]
                    },
            decreases before.inst_raw@.len() - i,
        {
            let mut r: InstanceRaw = self.inst_raw[i];
            let p: ObjectProbe = probes[i];
            r.obj_probe0 = p.direction;
            r.obj_probe1 = p.color;
            r.obj_light = p.light;
            self.inst_raw.set(i, r);
            i = i + 1;
        }
        self.inst_raw.len() > 0
    }

    /// The lightmap flag of the first instance; -1 where the stream is not kept.
    pub fn lm_flag(&self) -> (flag: u32)
        ensures
            flag == if self.inst_raw@.len() > 0 {
                self.inst_raw@[0].lm.x
            } else {
                F32_MINUS_ONE
            },
    {
        if self.inst_raw.len() > 0 {
            self.inst_raw[0].lm.x
        } else {
            F32_MINUS_ONE
        }
    }

    /// Set the material colours and both object probe lanes on every instance. Says whether the
    /// instance buffer has to be written again.
    pub fn set_h4_lanes(
        &mut self,
        spec_rgb: Vec4,
        fres_rgb: Vec4,
        probe0: Vec4,
        probe1: Vec4,
    ) -> (dirty: bool)
        ensures
            dirty == (old(self).inst_raw@.len() > 0),
            *final(self) == (GpuMesh { inst_raw: final(self).inst_raw, ..*old(self) }),
            final(self).inst_raw@ == Seq::new(
                old(self).inst_raw@.len(),
                |i: int|
                    with_probe_lanes(
                        with_tints(old(self).inst_raw@[i], spec_rgb, fres_rgb),
                        probe0,
                        probe1,
                    ),
            ),
    {
        let ghost before = *self;
        let mut i: usize = 0;
        while i < self.inst_raw.len()
            invariant
                i <= before.inst_raw@.len(),
                *self == (GpuMesh { inst_raw: self.inst_raw, ..before }),
                self.inst_raw@.len() == before.inst_raw@.len(),
                forall|k: int|
                    0 <= k < before.inst_raw@.len() ==> #[trigger] self.inst_raw@[k] == if k < i {
                        InstanceRaw {
                            spec_rgb,
                            fres_rgb,
                            obj_probe0: probe0,
                            obj_probe1: probe1,
                            ..before.inst_raw@[k]
                        }
                    } else {
                        before.inst_raw@[k]
                    },
            decreases before.inst_raw@.len() - i,
        {
            let mut r: InstanceRaw = self.inst_raw[i];
            r.spec_rgb = spec_rgb;
            r.fres_rgb = fres_rgb;
            r.obj_probe0 = probe0;
            r.obj_probe1 = probe1;
            self.inst_raw.set(i, r);
            i = i + 1;
        }
        self.inst_raw.len() > 0
    }

    /// Set the material's specular and fresnel colours on every instance. Says whether the instance
    /// buffer has to be written again.
    pub fn set_spec_tints(&mut self, spec_tint: Vec4, fres: Vec4) -> (dirty: bool)
        ensures
            dirty == (old(self).inst_raw@.len() > 0),
            *final(self) == (GpuMesh { inst_raw: final(self).inst_raw, ..*old(self) }),
            final(self).inst_raw@ == Seq::new(
                old(self).inst_raw@.len(),
                |i: int| with_tints(old(self).inst_raw@[i], spec_tint, fres),
            ),
    {
        let ghost before = *self;
        let mut i: usize = 0;
        while i < self.inst_raw.len()
            invariant
                i <= before.inst_raw@.len(),
                *self == (GpuMesh { inst_raw: self.inst_raw, ..before }),
                self.inst_raw@.len() == before.inst_raw@.len(),
                forall|k: int|
                    0 <= k < before.inst_raw@.len() ==> #[trigger] self.inst_raw@[k] == if k < i {
                        InstanceRaw { spec_rgb: spec_tint, fres_rgb: fres, ..before.inst_raw@[k] }
                    } else {
                        before.inst_raw@[k]
                    },
            decreases before.inst_raw@.len() - i,
        {
            let mut r: InstanceRaw = self.inst_raw[i];
            r.spec_rgb = spec_tint;
            r.fres_rgb = fres;
            self.inst_raw.set(i, r);
            i = i + 1;
        }
        self.inst_raw.len() > 0
    }

    /// Rewrite the colour lane of the first instances. Says whether the instance buffer has to be
    /// written again.
    pub fn set_instance_colors(&mut self, colors: &Vec<Vec4>) -> (dirty: bool)
        ensures
            dirty == (old(self).inst_raw@.len() > 0),
            *final(self) == (GpuMesh { inst_raw: final(self).inst_raw, ..*old(self) }),
            final(self).inst_raw@ == Seq::new(
                old(self).inst_raw@.len(),
                |i: int|
                    if i < colors@.len() {
                        with_color(old(self).inst_raw@[i], colors@[i])
                    } else {
                        old(self).inst_raw@[i]
                    },
            ),
    {
        let ghost before = *self;
        let mut i: usize = 0;
        while i < self.inst_raw.len() && i < colors.len()
            invariant
                i <= before.inst_raw@.len(),
                i <= colors@.len(),
                *self == (GpuMesh { inst_raw: self.inst_raw, ..before }),
                self.inst_raw@.len() == before.inst_raw@.len(),
                forall|k: int|
                    0 <= k < before.inst_raw@.len() ==> #[trigger] self.inst_raw@[k] == if k < i {
                        InstanceRaw { color: colors@[k], ..before.inst_raw@[k] }
                    } else {
                        before.inst_raw@[k]
                    },
            decreases before.inst_raw@.len() - i,
        {
            let mut r: InstanceRaw = self.inst_raw[i];
            r.color = colors[i];
            self.inst_raw.set(i, r);
            i = i + 1;
        }
        self.inst_raw.len() > 0
    }

    /// Rewrite the packed object-lighting lane of the first instances. Says whether the instance
    /// buffer has to be written again.
    pub fn set_instance_obj_light(&mut self, lanes: &Vec<Vec4>) -> (dirty: bool)
        ensures
            dirty == (old(self).inst_raw@.len() > 0),
            *final(self) == (GpuMesh { inst_raw: final(self).inst_raw, ..*old(self) }),
            final(self).inst_raw@ == Seq::new(
                old(self).inst_raw@.len(),
                |i: int|
                    if i < lanes@.len() {
                        with_light(old(self).inst_raw@[i], lanes@[i])
                    } else {
                        old(self).inst_raw@[i]
                    },
            ),
    {
        let ghost before = *self;
        let mut i: usize = 0;
        while i < self.inst_raw.len() && i < lanes.len()
            invariant
                i <= before.inst_raw@.len(),
                i <= lanes@.len(),
                *self == (GpuMesh { inst_raw: self.inst_raw, ..before }),
                self.inst_raw@.len() == before.inst_raw@.len(),
                forall|k: int|
                    0 <= k < before.inst_raw@.len() ==> #[trigger] self.inst_raw@[k] == if k < i {
                        InstanceRaw { obj_light: lanes@[k], ..before.inst_raw@[k] }
                    } else {
                        before.inst_raw@[k]
                    },
            decreases before.inst_raw@.len() - i,
        {
            let mut r: InstanceRaw = self.inst_raw[i];
            r.obj_light = lanes[i];
            self.inst_raw.set(i, r);
            i = i + 1;
        }
        self.inst_raw.len() > 0
    }

    /// Tag a decorator group with its centre and its instance count, for the distance sort and the
    /// budget of `draw_foliage`.
    pub fn set_deco_budget(&mut self, centroid: Vec3, deco_weight: u32)
        ensures
            *final(self) == (GpuMesh { centroid, deco_weight, ..*old(self) }),
    {
        self.centroid = centroid;
        self.deco_weight = deco_weight;
    }

    /// Tag a transparent mesh with its blend mode.
    pub fn set_blend_mode(&mut self, mode: u8)
        ensures
            *final(self) == (GpuMesh { blend_mode: mode, ..*old(self) }),
    {
        self.blend_mode = mode;
    }

    pub fn centroid(&self) -> (c: Vec3)
        ensures
            c == self.centroid,
    {
        self.centroid
    }

    /// The blend mode; 0 when untagged.
    pub fn blend_mode(&self) -> (m: u8)
        ensures
            m == self.blend_mode,
    {
        self.blend_mode
    }

    /// Override the sort position.
    pub fn set_centroid(&mut self, c: Vec3)
        ensures
            *final(self) == (GpuMesh { centroid: c, ..*old(self) }),
    {
        self.centroid = c;
    }
}

// ---- uploads ----------------------------------------------------------------------------------
/// What an upload sends: the mesh, the words of its instance buffer, its bind group, and the shared
/// stand-ins where this upload is the first.
pub struct MeshUpload {
    pub mesh: GpuMesh,
    pub instances: Vec<u32>,
    pub material: Material,
    pub fallbacks: Option<FallbackPlan>,
}

/// The lanes that all instances of a mesh share.
#[derive(Clone, Copy, Debug, PartialEq, Eq, Structural)]
pub struct MeshLanes {
    pub scroll: Vec2,
    pub tile: Vec2,
    pub detail_xform: Vec4,
    pub uv_density: u32,
    pub spec_from_alpha: u32,
    pub mat_pbr: Vec2,
    pub mat_spec2: Vec4,
    pub bump_xform: Vec4,
    pub fine_xform: Vec4,
    pub bump_detail_xform: Vec4,
    pub env_ctl: Vec4,
    /// A dynamic object, lit by probes rather than by an atlas.
    pub is_object: bool,
    pub matmodel: u32,
    pub si_ctl: Vec4,
    pub mattex_ctl: Vec4,
    pub mattex_xform: Vec4,
    pub xbump: Vec4,
    pub xctl: Vec4,
}

/// The record of one instance.
pub open spec fn instance_of(
    model: Mat4,
    color: Vec4,
    l: MeshLanes,
    lm: Option<LightmapInputs>,
) -> InstanceRaw {
    InstanceRaw {
        model,
        color,
        scroll: Vec4 { x: l.scroll.x, y: l.scroll.y, z: l.tile.x, w: l.tile.y },
        detail_xform: l.detail_xform,
        aux: Vec4 { x: l.uv_density, y: l.spec_from_alpha, z: l.mat_pbr.x, w: l.mat_pbr.y },
        lm: lm_lanes(lm, l.is_object),
        spec2: l.mat_spec2,
        bump_xform: l.bump_xform,
        fine_xform: l.fine_xform,
        bump_detail_xform: l.bump_detail_xform,
        env_ctl: l.env_ctl,
        matmodel: l.matmodel,
        si_ctl: l.si_ctl,
        mattex: l.mattex_ctl,
        mattex_xform: l.mattex_xform,
        xbump: l.xbump,
        xctl: l.xctl,
        obj_probe0: zero4(),
        obj_probe1: zero4(),
        spec_rgb: zero4(),
        fres_rgb: zero4(),
        obj_light: zero4(),
    }
}

/// The colour of instance `i`: its own where one is given, else white.
pub open spec fn color_of(colors: Option<&Vec<Vec4>>, i: int) -> Vec4 {
    match colors {
        Some(c) => if i < c@.len() {
            c@[i]
        } else {
            white()
        },
        None => white(),
    }
}

/// The instance stream of a mesh.
pub open spec fn stream_of(
    instances: Seq<Mat4>,
    colors: Option<&Vec<Vec4>>,
    l: MeshLanes,
    lm: Option<LightmapInputs>,
) -> Seq<InstanceRaw> {
    Seq::new(instances.len(), |i: int| instance_of(instances[i], color_of(colors, i), l, lm))
}

fn build_stream(
    instances: &Vec<Mat4>,
    colors: Option<&Vec<Vec4>>,
    l: &MeshLanes,
    lm: &Option<LightmapInputs>,
) -> (out: Vec<InstanceRaw>)
    ensures
        out@ == stream_of(instances@, colors, *l, *lm),
{
    let lanes: Vec4 = lightmap_lanes(lm, l.is_object);
    let mut out: Vec<InstanceRaw> = Vec::new();
    let mut i: usize = 0;
    while i < instances.len()
        invariant
            i <= instances@.len(),
            lanes == lm_lanes(*lm, l.is_object),
            out@.len() == i,
            forall|k: int|
                0 <= k < i ==> #[trigger] out@[k] == stream_of(instances@, colors, *l, *lm)[k],
        decreases instances@.len() - i,
    {
        let color: Vec4 = match colors {
            Some(c) => if i < c.len() {
                c[i]
            } else {
                white()
            },
            None => white(),
        };
        out.push(
            InstanceRaw {
                model: instances[i],
                color,
                scroll: Vec4 { x: l.scroll.x, y: l.scroll.y, z: l.tile.x, w: l.tile.y },
                detail_xform: l.detail_xform,
                aux: Vec4 {
                    x: l.uv_density,
                    y: l.spec_from_alpha,
                    z: l.mat_pbr.x,
                    w: l.mat_pbr.y,
                },
                lm: lanes,
                spec2: l.mat_spec2,
                bump_xform: l.bump_xform,
                fine_xform: l.fine_xform,
                bump_detail_xform: l.bump_detail_xform,
                env_ctl: l.env_ctl,
                matmodel: l.matmodel,
                si_ctl: l.si_ctl,
                mattex: l.mattex_ctl,
                mattex_xform: l.mattex_xform,
                xbump: l.xbump,
                xctl: l.xctl,
                obj_probe0: zero4(),
                obj_probe1: zero4(),
                spec_rgb: zero4(),
                fres_rgb: zero4(),
                obj_light: zero4(),
            },
        );
        i = i + 1;
    }
    assert(out@ =~= stream_of(instances@, colors, *l, *lm));
    out
}

/// At least one, as a draw count.
pub open spec fn draw_count(n: int) -> u32 {
    if n < 1 {
        1
    } else {
        n as u32
    }
}

/// Bytes of the geometry of a mesh.
pub open spec fn geometry_bytes(verts: int, indices: int) -> int {
    84 * verts + 4 * indices
}

/// Bytes of an instance stream.
pub open spec fn stream_bytes(n: int) -> int {
    388 * n
}

/// What an upload of a mesh sends.
pub open spec fn is_mesh_upload(
    u: MeshUpload,
    index_count: u32,
    instances: Seq<Mat4>,
    colors: Option<&Vec<Vec4>>,
    views: MaterialViews,
    l: MeshLanes,
    lm: Option<LightmapInputs>,
    centroid: Vec3,
) -> bool {
    &&& !u.mesh.is_terrain
    &&& u.mesh.casts_shadow
    &&& !u.mesh.h4_caster
    &&& u.mesh.inst_raw@ == stream_of(instances, colors, l, lm)
    &&& u.mesh.index_count == index_count
    &&& u.mesh.instance_count == draw_count(instances.len() as int)
    &&& u.mesh.centroid == centroid
    &&& u.mesh.deco_weight == 0
    &&& u.mesh.blend_mode == 0
    &&& u.instances@ == instance_words_of(stream_of(instances, colors, l, lm))
    &&& is_mesh_material(u.material, views, lm)
}

/// A label's totals after its creations were noted, where `label` names it.
pub open spec fn noted_if(
    before: Option<(u64, u64)>,
    name: Seq<char>,
    label: Seq<char>,
    bytes: u64,
) -> Option<(u64, u64)> {
    if name == label {
        memprof::noted(before, bytes)
    } else {
        before
    }
}

impl MeshRenderer {
    /// Upload a mesh whose vertex and index buffers exist already. `centroid` is the mean instance
    /// translation.
    pub fn upload_mesh_prebuilt(
        &mut self,
        p: &mut MemProf,
        index_count: u32,
        instances: &Vec<Mat4>,
        colors: Option<&Vec<Vec4>>,
        views: MaterialViews,
        l: MeshLanes,
        lm: Option<LightmapInputs>,
        centroid: Vec3,
    ) -> (u: MeshUpload)
        requires
            old(p).wf(),
        ensures
            final(p).wf(),
            *final(self) == (MeshRenderer { fallbacks: true, ..*old(self) }),
            is_fallback_step(u.fallbacks, old(self).fallbacks),
            is_mesh_upload(u, index_count, instances@, colors, views, l, lm, centroid),
            final(p).totals() == totals_with_texels(
                (
                    old(p).totals().0,
                    old(p).totals().1,
                    old(p).totals().2.wrapping_add(stream_bytes(instances@.len() as int) as u64),
                    old(p).totals().3,
                    old(p).totals().4.wrapping_add(1),
                ),
                texels_created(old(self).fallbacks, views.base is None),
            ),
            forall|name: Seq<char>|
                #![trigger final(p).category(name)]
                final(p).category(name) == notes_with_texels(
                    noted_if(
                        old(p).category(name),
                        name,
                        "buf:mesh-inst"@,
                        stream_bytes(instances@.len() as int) as u64,
                    ),
                    name,
                    texels_created(old(self).fallbacks, views.base is None),
                ),
    {
        let stream: Vec<InstanceRaw> = build_stream(instances, colors, &l, &lm);
        let bytes: u64 = (stream.len() as u128 * 388) as u64;
        memprof::add_buf(p, bytes);
        memprof::note(p, "buf:mesh-inst", bytes);
        memprof::add_mesh(p);
        let words: Vec<u32> = instance_words(&stream);
        let (material, fallbacks): (Material, Option<FallbackPlan>) = self.mesh_material(
            p,
            &views,
            &lm,
        );
        let count: usize = if instances.len() < 1 { 1 } else { instances.len() };
        MeshUpload {
            mesh: GpuMesh {
                is_terrain: false,
                casts_shadow: true,
                h4_caster: false,
                inst_raw: stream,
                index_count,
                instance_count: count as u32,
                centroid,
                deco_weight: 0,
                blend_mode: 0,
            },
            instances: words,
            material,
            fallbacks,
        }
    }
}

impl MeshRenderer {
    /// Upload a mesh with its geometry. What it sends is what `upload_mesh_prebuilt` sends.
    pub fn upload_mesh(
        &mut self,
        p: &mut MemProf,
        verts: &Vec<MeshVertex>,
        indices: &Vec<u32>,
        instances: &Vec<Mat4>,
        colors: Option<&Vec<Vec4>>,
        views: MaterialViews,
        l: MeshLanes,
        lm: Option<LightmapInputs>,
        centroid: Vec3,
    ) -> (u: MeshUpload)
        requires
            old(p).wf(),
        ensures
            final(p).wf(),
            *final(self) == (MeshRenderer { fallbacks: true, ..*old(self) }),
            is_fallback_step(u.fallbacks, old(self).fallbacks),
            is_mesh_upload(
                u,
                indices@.len() as u32,
                instances@,
                colors,
                views,
                l,
                lm,
                centroid,
            ),
            final(p).totals() == totals_with_texels(
                (
                    old(p).totals().0,
                    old(p).totals().1,
                    old(p).totals().2.wrapping_add(
                        geometry_bytes(verts@.len() as int, indices@.len() as int) as u64,
                    ).wrapping_add(stream_bytes(instances@.len() as int) as u64),
                    old(p).totals().3,
                    old(p).totals().4.wrapping_add(1),
                ),
                texels_created(old(self).fallbacks, views.base is None),
            ),
            forall|name: Seq<char>|
                #![trigger final(p).category(name)]
                final(p).category(name) == notes_with_texels(
                    noted_if(
                        noted_if(
                            old(p).category(name),
                            name,
                            "buf:mesh-vb/ib"@,
                            geometry_bytes(verts@.len() as int, indices@.len() as int) as u64,
                        ),
                        name,
                        "buf:mesh-inst"@,
                        stream_bytes(instances@.len() as int) as u64,
                    ),
                    name,
                    texels_created(old(self).fallbacks, views.base is None),
                ),
    {
        let bytes: u64 = geometry_size(verts.len(), indices.len());
        memprof::add_buf(p, bytes);
        memprof::note(p, "buf:mesh-vb/ib", bytes);
        self.upload_mesh_prebuilt(
            p,
            indices.len() as u32,
            instances,
            colors,
            views,
            l,
            lm,
            centroid,
        )
    }
}

pub(crate) fn geometry_size(verts: usize, indices: usize) -> (n: u64)
    ensures
        n == geometry_bytes(verts as int, indices as int) as u64,
{
    (84 * verts as u128 + 4 * indices as u128) as u64
}

/// The record of a mesh that is placed once and carries no lanes but its lightmap.
pub open spec fn plain_instance(model: Mat4, lm: Option<LightmapInputs>) -> InstanceRaw {
    InstanceRaw {
        model,
        color: white(),
        scroll: zero4(),
        detail_xform: zero4(),
        aux: zero4(),
        lm: lm_lanes(lm, false),
        spec2: zero4(),
        bump_xform: zero4(),
        fine_xform: zero4(),
        bump_detail_xform: zero4(),
        env_ctl: zero4(),
        matmodel: 0,
        si_ctl: zero4(),
        mattex: zero4(),
        mattex_xform: zero4(),
        xbump: zero4(),
        xctl: zero4(),
        obj_probe0: zero4(),
        obj_probe1: zero4(),
        spec_rgb: zero4(),
        fres_rgb: zero4(),
        obj_light: zero4(),
    }
}

pub(crate) fn place_once(model: Mat4, lm: &Option<LightmapInputs>) -> (r: InstanceRaw)
    ensures
        r == plain_instance(model, *lm),
{
    InstanceRaw {
        model,
        color: white(),
        scroll: zero4(),
        detail_xform: zero4(),
        aux: zero4(),
        lm: lightmap_lanes(lm, false),
        spec2: zero4(),
        bump_xform: zero4(),
        fine_xform: zero4(),
        bump_detail_xform: zero4(),
        env_ctl: zero4(),
        matmodel: 0,
        si_ctl: zero4(),
        mattex: zero4(),
        mattex_xform: zero4(),
        xbump: zero4(),
        xctl: zero4(),
        obj_probe0: zero4(),
        obj_probe1: zero4(),
        spec_rgb: zero4(),
        fres_rgb: zero4(),
        obj_light: zero4(),
    }
}

/// The translation of a placement.
pub open spec fn translation_of(m: Mat4) -> Vec3 {
    Vec3 { x: m.w_axis.x, y: m.w_axis.y, z: m.w_axis.z }
}

/// A terrain or water mesh: placed once by `model`, its instance stream not kept.
pub open spec fn is_plain_mesh(m: GpuMesh, terrain: bool, indices: int, model: Mat4) -> bool {
    &&& m.is_terrain == terrain
    &&& m.casts_shadow
    &&& !m.h4_caster
    &&& m.inst_raw@.len() == 0
    &&& m.index_count == indices as u32
    &&& m.instance_count == 1
    &&& m.centroid == translation_of(model)
    &&& m.deco_weight == 0
    &&& m.blend_mode == 0
}

pub(crate) fn plain_mesh(terrain: bool, indices: usize, model: &Mat4) -> (m: GpuMesh)
    ensures
        is_plain_mesh(m, terrain, indices as int, *model),
{
    GpuMesh {
        is_terrain: terrain,
        casts_shadow: true,
        h4_caster: false,
        inst_raw: Vec::new(),
        index_count: indices as u32,
        instance_count: 1,
        centroid: Vec3 { x: model.w_axis.x, y: model.w_axis.y, z: model.w_axis.z },
        deco_weight: 0,
        blend_mode: 0,
    }
}

pub(crate) fn single_record(r: InstanceRaw) -> (words: Vec<u32>)
    ensures
        words@ == instance_words_of(seq![r]),
{
    let one: Vec<InstanceRaw> = vec![r];
    assert(one@ =~= seq![r]);
    instance_words(&one)
}

// ---- what an upload binds and sends -----------------------------------------------------------
/// Every view that a mesh with a base texture brings is bound at the slot where the shader reads
/// it; a missing one is stood in for by the texel that changes nothing there.
#[verifier::rlimit(40)]
pub proof fn law_views_reach_their_slots(
    m: Material,
    v: MaterialViews,
    lm: Option<LightmapInputs>,
    base: u32,
)
    requires
        is_mesh_material(m, v, lm),
        v.base == Some(base),
    ensures
        m.bindings@.len() == 17,
        forall|i: int| 0 <= i < 17 ==> (#[trigger] m.bindings@[i]).binding == i,
        m.bindings@[0].resource == Resource::Texture(Tex::View(base)),
        v.emissive matches Some(x) ==> m.bindings@[2].resource == Resource::Texture(Tex::View(x)),
        v.detail matches Some(x) ==> m.bindings@[3].resource == Resource::Texture(Tex::View(x)),
        v.bump matches Some(x) ==> m.bindings@[4].resource == Resource::Texture(Tex::View(x)),
        v.env_cube matches Some(x) ==> m.bindings@[10].resource == Resource::Cube(Cube::View(x)),
        v.bump_detail matches Some(x) ==> m.bindings@[12].resource == Resource::Texture(
            Tex::View(x),
        ),
        v.alpha_test matches Some(x) ==> m.bindings@[13].resource == Resource::Texture(
            Tex::View(x),
        ),
        v.material_texture matches Some(x) ==> m.bindings@[14].resource == Resource::Texture(
            Tex::View(x),
        ),
        v.bump_detail2 matches Some(x) ==> m.bindings@[15].resource == Resource::Texture(
            Tex::View(x),
        ),
        v.bump_detail3 matches Some(x) ==> m.bindings@[16].resource == Resource::Texture(
            Tex::View(x),
        ),
        v.emissive is None ==> m.bindings@[2].resource == Resource::Texture(Tex::Black),
        v.detail is None ==> m.bindings@[3].resource == Resource::Texture(Tex::Grey),
        v.bump is None ==> m.bindings@[4].resource == Resource::Texture(Tex::Flat),
        v.env_cube is None ==> m.bindings@[10].resource == Resource::Cube(Cube::Captured),
        v.bump_detail is None ==> m.bindings@[12].resource == Resource::Texture(Tex::Flat),
        v.alpha_test is None ==> m.bindings@[13].resource == m.bindings@[0].resource,
        v.material_texture is None ==> m.bindings@[14].resource == Resource::Texture(Tex::Grey),
        v.bump_detail2 is None ==> m.bindings@[15].resource == Resource::Texture(Tex::Flat),
        v.bump_detail3 is None ==> m.bindings@[16].resource == Resource::Texture(Tex::Flat),
        m.bindings@[1].resource == Resource::Sampler(SamplerId::Mesh),
        m.bindings@[7].resource == Resource::Sampler(SamplerId::Lightmap),
        m.bindings@[11].resource == Resource::Sampler(SamplerId::Env),
        is_atlas(
            lm,
            m.bindings@[5].resource,
            m.bindings@[6].resource,
            m.bindings@[8].resource,
            m.bindings@[9].resource,
        ),
        m.layout == MaterialLayout::Mesh,
        m.textures@.len() == 0,
        m.uniform@.len() == 0,
{
    assert forall|i: int| 0 <= i < 17 implies (#[trigger] m.bindings@[i]).binding == i by {}
}

/// The four slots of an atlas: direction map, then the three slices; a missing further slice is
/// read from the first one. Without an atlas they are grey and three times black.
pub open spec fn is_atlas(
    lm: Option<LightmapInputs>,
    dm: Resource,
    sdm: Resource,
    sdm1: Resource,
    sdm2: Resource,
) -> bool {
    &&& lm matches Some(l) ==> {
        &&& dm == Resource::Texture(Tex::View(l.dm))
        &&& sdm == Resource::Texture(Tex::View(l.sdm))
        &&& l.sdm1 matches Some(x) ==> sdm1 == Resource::Texture(Tex::View(x))
        &&& l.sdm2 matches Some(x) ==> sdm2 == Resource::Texture(Tex::View(x))
        &&& l.sdm1 is None ==> sdm1 == sdm
        &&& l.sdm2 is None ==> sdm2 == sdm
    }
    &&& lm is None ==> {
        &&& dm == Resource::Texture(Tex::Grey)
        &&& sdm == Resource::Texture(Tex::Black)
        &&& sdm1 == Resource::Texture(Tex::Black)
        &&& sdm2 == Resource::Texture(Tex::Black)
    }
}

/// A texture of one texel is one level of one texel, with the texel's own bytes.
pub proof fn law_single_texel_holds_its_texel(plan: TexturePlan, texel: [u8; 4])
    requires
        is_single_texel(plan, texel),
    ensures
        plan.format == TexelFormat::Rgba8Unorm,
        plan.width == 1,
        plan.height == 1,
        plan.levels@.len() == 1,
        plan.levels@[0].width == 1,
        plan.levels@[0].height == 1,
        plan.levels@[0].row_bytes == 4,
        plan.levels@[0].data@ == texel@,
{
    vstd::arithmetic::logarithm::lemma_log0(2, 1);
    vstd::arithmetic::power2::lemma2_to64();
}

/// A mesh without a base texture is drawn white, without emission or bumps: it binds a white base,
/// which is its alpha test too, a black emissive map, a grey detail map and flat normals, all made
/// for it alone, and no atlas.
pub proof fn law_neutral_material_changes_nothing(
    m: Material,
    v: MaterialViews,
    lm: Option<LightmapInputs>,
)
    requires
        is_mesh_material(m, v, lm),
        v.base is None,
    ensures
        m.textures@.len() == 4,
        m.textures@[0].levels@[0].data@ == seq![255u8, 255u8, 255u8, 255u8],
        m.textures@[1].levels@[0].data@ == seq![0u8, 0u8, 0u8, 255u8],
        m.textures@[2].levels@[0].data@ == seq![128u8, 128u8, 128u8, 255u8],
        m.textures@[3].levels@[0].data@ == seq![128u8, 128u8, 255u8, 255u8],
        m.bindings@.len() == 17,
        m.bindings@[0].resource == Resource::Texture(Tex::Own(0)),
        m.bindings@[2].resource == Resource::Texture(Tex::Own(1)),
        m.bindings@[3].resource == Resource::Texture(Tex::Own(2)),
        m.bindings@[4].resource == Resource::Texture(Tex::Own(3)),
        m.bindings@[10].resource == Resource::Cube(Cube::Captured),
        m.bindings@[11].resource == Resource::Sampler(SamplerId::Env),
        m.bindings@[12].resource == Resource::Texture(Tex::Flat),
        m.bindings@[13].resource == m.bindings@[0].resource,
        m.bindings@[14].resource == Resource::Texture(Tex::Grey),
        m.bindings@[15].resource == Resource::Texture(Tex::Flat),
        m.bindings@[16].resource == Resource::Texture(Tex::Flat),
        is_atlas(
            None,
            m.bindings@[5].resource,
            m.bindings@[6].resource,
            m.bindings@[8].resource,
            m.bindings@[9].resource,
        ),
{
    law_single_texel_holds_its_texel(m.textures@[0], WHITE);
    law_single_texel_holds_its_texel(m.textures@[1], BLACK);
    law_single_texel_holds_its_texel(m.textures@[2], GREY);
    law_single_texel_holds_its_texel(m.textures@[3], FLAT);
    assert(WHITE@ =~= seq![255u8, 255u8, 255u8, 255u8]);
    assert(BLACK@ =~= seq![0u8, 0u8, 0u8, 255u8]);
    assert(GREY@ =~= seq![128u8, 128u8, 128u8, 255u8]);
    assert(FLAT@ =~= seq![128u8, 128u8, 255u8, 255u8]);
}

/// The shared stand-ins are built once, and hold the texels they are named after.
pub proof fn law_stand_ins_hold_their_texels(r: Option<FallbackPlan>, exist: bool)
    requires
        is_fallback_step(r, exist),
    ensures
        r is Some <==> !exist,
        r matches Some(f) ==> {
            &&& f.black.levels@[0].data@ == seq![0u8, 0u8, 0u8, 255u8]
            &&& f.grey.levels@[0].data@ == seq![128u8, 128u8, 128u8, 255u8]
            &&& f.flat.levels@[0].data@ == seq![128u8, 128u8, 255u8, 255u8]
        },
{
    if let Some(f) = r {
        law_single_texel_holds_its_texel(f.black, BLACK);
        law_single_texel_holds_its_texel(f.grey, GREY);
        law_single_texel_holds_its_texel(f.flat, FLAT);
        assert(BLACK@ =~= seq![0u8, 0u8, 0u8, 255u8]);
        assert(GREY@ =~= seq![128u8, 128u8, 128u8, 255u8]);
        assert(FLAT@ =~= seq![128u8, 128u8, 255u8, 255u8]);
    }
}

/// The ninety-seven words of one instance of a mesh: the placement by its columns, the colour, and
/// each lane of the mesh at its place. No object lighting is set.
pub open spec fn holds_instance(
    w: Seq<u32>,
    model: Mat4,
    color: Vec4,
    l: MeshLanes,
    lm: Option<LightmapInputs>,
) -> bool {
    &&& w.len() == 97
    &&& crate::words::lanes_at(w, 0, model.x_axis)
    &&& crate::words::lanes_at(w, 4, model.y_axis)
    &&& crate::words::lanes_at(w, 8, model.z_axis)
    &&& crate::words::lanes_at(w, 12, model.w_axis)
    &&& crate::words::lanes_at(w, 16, color)
    &&& (w[20], w[21]) == (l.scroll.x, l.scroll.y)
    &&& (w[22], w[23]) == (l.tile.x, l.tile.y)
    &&& crate::words::lanes_at(w, 24, l.detail_xform)
    &&& (w[28], w[29]) == (l.uv_density, l.spec_from_alpha)
    &&& (w[30], w[31]) == (l.mat_pbr.x, l.mat_pbr.y)
    &&& lm matches Some(x) ==> (w[32], w[33], w[34], w[35]) == (
        F32_ONE,
        x.hdr,
        x.k,
        x.mode,
    )
    &&& lm is None ==> (w[32], w[33], w[34]) == (0u32, 0u32, 0u32)
    &&& lm is None && l.is_object ==> w[35] == F32_TWO
    &&& lm is None && !l.is_object ==> w[35] == 0
    &&& crate::words::lanes_at(w, 36, l.mat_spec2)
    &&& crate::words::lanes_at(w, 40, l.bump_xform)
    &&& crate::words::lanes_at(w, 44, l.fine_xform)
    &&& crate::words::lanes_at(w, 48, l.bump_detail_xform)
    &&& crate::words::lanes_at(w, 52, l.env_ctl)
    &&& w[56] == l.matmodel
    &&& crate::words::lanes_at(w, 57, l.si_ctl)
    &&& crate::words::lanes_at(w, 61, l.mattex_ctl)
    &&& crate::words::lanes_at(w, 65, l.mattex_xform)
    &&& crate::words::lanes_at(w, 69, l.xbump)
    &&& crate::words::lanes_at(w, 73, l.xctl)
    &&& forall|k: int| 77 <= k < 97 ==> #[trigger] w[k] == 0
}

/// Word `k` of record `i` is word `97 * i + k` of the buffer.
proof fn lemma_record_word(rs: Seq<InstanceRaw>, i: int, k: int)
    requires
        0 <= i < rs.len(),
        0 <= k < 97,
    ensures
        instance_words_of(rs)[97 * i + k] == rs[i].words()[k],
{
    assert((97 * i + k) / 97 == i && (97 * i + k) % 97 == k);
}

/// Record `i` of a buffer is its words from `97 * i` on.
proof fn lemma_record_of_buffer(rs: Seq<InstanceRaw>, i: int)
    requires
        0 <= i < rs.len(),
        rs[i].words().len() == 97,
    ensures
        instance_words_of(rs).subrange(97 * i, 97 * i + 97) == rs[i].words(),
{
    let w = instance_words_of(rs).subrange(97 * i, 97 * i + 97);
    assert forall|k: int| 0 <= k < 97 implies w[k] == rs[i].words()[k] by {
        lemma_record_word(rs, i, k);
    }
    assert(w =~= rs[i].words());
}

/// The words of a vector of zeros are zero.
proof fn lemma_zero_word(r: InstanceRaw, k: int)
    requires
        0 <= k < 97,
        k != 56,
        k < 56 ==> r.front()[k / 4] == zero4(),
        k > 56 ==> r.back()[(k - 57) / 4] == zero4(),
    ensures
        r.words()[k] == 0,
{
}

/// The record of an instance holds what belongs to it.
proof fn lemma_instance_held(
    r: InstanceRaw,
    model: Mat4,
    color: Vec4,
    l: MeshLanes,
    lm: Option<LightmapInputs>,
)
    requires
        r == instance_of(model, color, l, lm),
    ensures
        holds_instance(r.words(), model, color, l, lm),
{
    law_instance_words(r);
    let w = r.words();
    assert forall|k: int| 77 <= k < 97 implies #[trigger] w[k] == 0 by {
        let n = (k - 57) / 4;
        assert(5 <= n < 10);
        assert(r.back()[n] == zero4());
        lemma_zero_word(r, k);
    }
}

/// Every instance of an uploaded mesh stands in its buffer with the mesh's lanes, in the given
/// order; one without a colour of its own is white.
pub proof fn law_uploaded_instances(
    u: MeshUpload,
    index_count: u32,
    instances: Seq<Mat4>,
    colors: Option<&Vec<Vec4>>,
    views: MaterialViews,
    l: MeshLanes,
    lm: Option<LightmapInputs>,
    centroid: Vec3,
    i: int,
)
    requires
        is_mesh_upload(u, index_count, instances, colors, views, l, lm, centroid),
        0 <= i < instances.len(),
    ensures
        u.instances@.len() == 97 * instances.len(),
        colors matches Some(c) ==> i < c@.len() ==> holds_instance(
            u.instances@.subrange(97 * i, 97 * i + 97),
            instances[i],
            c@[i],
            l,
            lm,
        ),
        (colors is None || (colors matches Some(c) && c@.len() <= i)) ==> holds_instance(
            u.instances@.subrange(97 * i, 97 * i + 97),
            instances[i],
            (Vec4 { x: F32_ONE, y: F32_ONE, z: F32_ONE, w: F32_ONE }),
            l,
            lm,
        ),
{
    let rs = stream_of(instances, colors, l, lm);
    let color = color_of(colors, i);
    lemma_instance_held(rs[i], instances[i], color, l, lm);
    lemma_record_of_buffer(rs, i);
}

/// A mesh starts out as an ordinary shadow caster, without a decorator weight or a blend mode, and
/// is drawn at least once.
pub proof fn law_uploaded_mesh_is_ordinary(
    u: MeshUpload,
    index_count: u32,
    instances: Seq<Mat4>,
    colors: Option<&Vec<Vec4>>,
    views: MaterialViews,
    l: MeshLanes,
    lm: Option<LightmapInputs>,
    centroid: Vec3,
)
    requires
        is_mesh_upload(u, index_count, instances, colors, views, l, lm, centroid),
        instances.len() <= u32::MAX,
    ensures
        u.mesh.casts_shadow && !u.mesh.is_terrain && !u.mesh.h4_caster,
        u.mesh.deco_weight == 0 && u.mesh.blend_mode == 0,
        u.mesh.index_count == index_count,
        u.mesh.centroid == centroid,
        u.mesh.inst_raw@.len() == instances.len(),
        instances.len() == 0 ==> u.mesh.instance_count == 1,
        instances.len() > 0 ==> u.mesh.instance_count == instances.len(),
        u.instances@ == instance_words_of(u.mesh.inst_raw@),
{
}

/// The bytes that are counted are the bytes that are sent.
pub proof fn law_counted_bytes_are_sent(
    verts: Seq<MeshVertex>,
    indices: Seq<u32>,
    rs: Seq<InstanceRaw>,
    vb: Seq<u8>,
    ib: Seq<u8>,
    nb: Seq<u8>,
)
    requires
        crate::words::is_native_image(vertex_words_of(verts), vb),
        crate::words::is_native_image(indices, ib),
        crate::words::is_native_image(instance_words_of(rs), nb),
    ensures
        geometry_bytes(verts.len() as int, indices.len() as int) == vb.len() + ib.len(),
        stream_bytes(rs.len() as int) == nb.len(),
        SINGLE_TEXEL_BYTES == texture::texture_bytes(1, 1, true),
{
    assert(1 * 1 * 4 * 4int / 3 == 5) by (nonlinear_arith);
}

/// Creating single-texel textures adds to the texture bytes and the texture count alone, and to
/// the label of textures with a chain alone.
pub proof fn law_texels_are_counted_as_textures(a: MemProf, b: MemProf, n: nat, name: Seq<char>)
    requires
        texels_accounted(a, b, n),
        n <= 7,
        a.totals().0 + 35 <= u64::MAX,
        a.totals().3 + 7 <= u64::MAX,
    ensures
        b.totals().0 == a.totals().0 + SINGLE_TEXEL_BYTES * n,
        b.totals().1 == a.totals().1,
        b.totals().2 == a.totals().2,
        b.totals().3 == a.totals().3 + n,
        b.totals().4 == a.totals().4,
        name != "tex:rgba-mips"@ ==> b.category(name) == a.category(name),
{
}

/// A vertex that nothing was set on: white, facing up the z axis, everything else zero.
pub proof fn law_default_vertex_is_neutral()
    ensures
        ({
            let w = default_vertex().words();
            &&& forall|k: int|
                0 <= k < 21 && k != 5 && !(8 <= k < 12) ==> #[trigger] w[k] == 0
            &&& w[5] == F32_ONE
            &&& w[8] == F32_ONE && w[9] == F32_ONE && w[10] == F32_ONE && w[11] == F32_ONE
        }),
{
}

/// A terrain or water mesh sends one record: its placement, white, its lightmap, and zeros.
#[verifier::rlimit(40)]
pub proof fn law_plain_record(model: Mat4, lm: Option<LightmapInputs>, k: int)
    requires
        0 <= k < 97,
    ensures
        ({
            let w = instance_words_of(seq![plain_instance(model, lm)]);
            &&& w.len() == 97
            &&& crate::words::lanes_at(w, 0, model.x_axis)
            &&& crate::words::lanes_at(w, 4, model.y_axis)
            &&& crate::words::lanes_at(w, 8, model.z_axis)
            &&& crate::words::lanes_at(w, 12, model.w_axis)
            &&& 16 <= k < 20 ==> w[k] == F32_ONE
            &&& lm matches Some(x) ==> (w[32], w[33], w[34], w[35]) == (
                F32_ONE,
                x.hdr,
                x.k,
                x.mode,
            )
            &&& lm is None && 32 <= k < 36 ==> w[k] == 0
            &&& 20 <= k < 32 || 36 <= k ==> w[k] == 0
        }),
{
    let r = plain_instance(model, lm);
    let rs = seq![r];
    law_instance_words(r);
    lemma_record_of_buffer(rs, 0);
    assert(instance_words_of(rs) =~= instance_words_of(rs).subrange(0, 97));
    if 57 <= k {
        let n = (k - 57) / 4;
        assert(0 <= n < 10);
        assert(r.back()[n] == zero4());
        lemma_zero_word(r, k);
    } else if k < 56 && (20 <= k < 32 || 36 <= k) {
        let n = k / 4;
        assert(5 <= n < 14 && n != 8);
        assert(r.front()[n] == zero4());
        lemma_zero_word(r, k);
    }
}

/// A terrain or water mesh is sorted where it is placed, and keeps no instance stream.
pub proof fn law_plain_mesh(m: GpuMesh, terrain: bool, indices: int, model: Mat4)
    requires
        is_plain_mesh(m, terrain, indices, model),
        0 <= indices <= u32::MAX,
    ensures
        m.is_terrain == terrain,
        m.index_count == indices,
        m.instance_count == 1,
        m.inst_raw@.len() == 0,
        m.centroid.x == model.w_axis.x && m.centroid.y == model.w_axis.y && m.centroid.z
            == model.w_axis.z,
        m.casts_shadow && !m.h4_caster && m.deco_weight == 0 && m.blend_mode == 0,
{
}

/// The identity moves nothing: each column is the unit vector of its axis.
pub proof fn law_identity_columns()
    ensures
        ({
            let m = identity();
            &&& (m.x_axis.x, m.x_axis.y, m.x_axis.z, m.x_axis.w) == (F32_ONE, 0u32, 0u32, 0u32)
            &&& (m.y_axis.x, m.y_axis.y, m.y_axis.z, m.y_axis.w) == (0u32, F32_ONE, 0u32, 0u32)
            &&& (m.z_axis.x, m.z_axis.y, m.z_axis.z, m.z_axis.w) == (0u32, 0u32, F32_ONE, 0u32)
            &&& (m.w_axis.x, m.w_axis.y, m.w_axis.z, m.w_axis.w) == (0u32, 0u32, 0u32, F32_ONE)
            &&& translation_of(m) == (Vec3 { x: 0, y: 0, z: 0 })
            &&& white() == (Vec4 { x: F32_ONE, y: F32_ONE, z: F32_ONE, w: F32_ONE })
        }),
{
}

} // verus!
