//! Water meshes.

use crate::f32bits::F32_ONE;
use crate::layout;
use crate::layout::{Binding, Resource, SamplerId, Tex};
use crate::memprof;
use crate::memprof::MemProf;
use crate::mesh::{
    env_or, geometry_size, identity, lightmap_textures, place_once, plain_mesh, single_record,
    view_or, FallbackPlan, LightmapInputs, Material, MeshUpload, MeshVertex,
};
use crate::pipeline::{MaterialLayout, MeshRenderer};
use crate::words::{words_of, zero4, Vec4};
use vstd::prelude::*;

verus! {

/// Parameters of a water material, in the order the GPU reads them.
#[derive(Clone, Copy, Debug, PartialEq, Eq, Structural)]
pub struct WaterParams {
    pub p0: Vec4,
    pub p1: Vec4,
    pub deep: Vec4,
    pub wave: Vec4,
    pub edge: Vec4,
    pub diff: Vec4,
    pub env: Vec4,
    pub foam: Vec4,
    pub xform2: Vec4,
    pub body: Vec4,
    pub anim: Vec4,
    pub scroll: Vec4,
    pub detail: Vec4,
    pub wcxf: Vec4,
    pub cat: Vec4,
}

impl WaterParams {
    pub open spec fn lanes(self) -> Seq<Vec4> {
        seq![
            self.p0,
            self.p1,
            self.deep,
            self.wave,
            self.edge,
            self.diff,
            self.env,
            self.foam,
            self.xform2,
            self.body,
            self.anim,
            self.scroll,
            self.detail,
            self.wcxf,
            self.cat,
        ]
    }

    fn vectors(&self) -> (v: Vec<Vec4>)
        ensures
            v@ == self.lanes(),
    {
        let v: Vec<Vec4> = vec![
            self.p0,
            self.p1,
            self.deep,
            self.wave,
            self.edge,
            self.diff,
            self.env,
            self.foam,
            self.xform2,
            self.body,
            self.anim,
            self.scroll,
            self.detail,
            self.wcxf,
            self.cat,
        ];
        assert(v@ =~= self.lanes());
        v
    }
}

/// Neutral water: the values of an ocean without authored constants, the captured sky and no
/// overlay animation.
pub open spec fn default_water() -> WaterParams {
    WaterParams {
        // 1, 8, 4, 0.8
        p0: Vec4 { x: F32_ONE, y: 0x4100_0000, z: 0x4080_0000, w: 0x3f4c_cccd },
        // 1, 1, 0.1, 0.07
        p1: Vec4 { x: F32_ONE, y: F32_ONE, z: 0x3dcc_cccd, w: 0x3d8f_5c29 },
        // 0.015, 0.05, 0.08, 0
        deep: Vec4 { x: 0x3c75_c28f, y: 0x3d4c_cccd, z: 0x3da3_d70a, w: 0 },
        wave: Vec4 { x: F32_ONE, y: F32_ONE, z: F32_ONE, w: F32_ONE },
        // 30, 1, 0, 0.7
        edge: Vec4 { x: 0x41f0_0000, y: F32_ONE, z: 0, w: 0x3f33_3333 },
        // 0, 0.02, 0.04, 0.2
        diff: Vec4 { x: 0, y: 0x3ca3_d70a, z: 0x3d23_d70a, w: 0x3e4c_cccd },
        // 0, 256, 0, 0
        env: Vec4 { x: 0, y: 0x4380_0000, z: 0, w: 0 },
        // 1, 1, 0.5, 0
        foam: Vec4 { x: F32_ONE, y: F32_ONE, z: 0x3f00_0000, w: 0 },
        xform2: zero4(),
        body: zero4(),
        anim: zero4(),
        scroll: zero4(),
        detail: Vec4 { x: F32_ONE, y: F32_ONE, z: F32_ONE, w: 0 },
        wcxf: Vec4 { x: F32_ONE, y: F32_ONE, z: 0, w: 0 },
        cat: Vec4 { x: F32_ONE, y: F32_ONE, z: F32_ONE, w: 0 },
    }
}

impl Default for WaterParams {
    fn default() -> (w: Self)
        ensures
            w == default_water(),
    {
        WaterParams {
            // 1, 8, 4, 0.8
            p0: Vec4 { x: F32_ONE, y: 0x4100_0000, z: 0x4080_0000, w: 0x3f4c_cccd },
            // 1, 1, 0.1, 0.07
            p1: Vec4 { x: F32_ONE, y: F32_ONE, z: 0x3dcc_cccd, w: 0x3d8f_5c29 },
            // 0.015, 0.05, 0.08, 0
            deep: Vec4 { x: 0x3c75_c28f, y: 0x3d4c_cccd, z: 0x3da3_d70a, w: 0 },
            wave: Vec4 { x: F32_ONE, y: F32_ONE, z: F32_ONE, w: F32_ONE },
            // 30, 1, 0, 0.7
            edge: Vec4 { x: 0x41f0_0000, y: F32_ONE, z: 0, w: 0x3f33_3333 },
            // 0, 0.02, 0.04, 0.2
            diff: Vec4 { x: 0, y: 0x3ca3_d70a, z: 0x3d23_d70a, w: 0x3e4c_cccd },
            // 0, 256, 0, 0
            env: Vec4 { x: 0, y: 0x4380_0000, z: 0, w: 0 },
            // 1, 1, 0.5, 0
            foam: Vec4 { x: F32_ONE, y: F32_ONE, z: 0x3f00_0000, w: 0 },
            xform2: zero4(),
            body: zero4(),
            anim: zero4(),
            scroll: zero4(),
            detail: Vec4 { x: F32_ONE, y: F32_ONE, z: F32_ONE, w: 0 },
            wcxf: Vec4 { x: F32_ONE, y: F32_ONE, z: 0, w: 0 },
            cat: Vec4 { x: F32_ONE, y: F32_ONE, z: F32_ONE, w: 0 },
        }
    }
}

/// The views of a water material; each may be missing.
#[derive(Clone, Copy, Debug, PartialEq, Eq, Structural)]
pub struct WaterViews {
    pub watercolor: Option<u32>,
    pub slope: Option<u32>,
    pub env_cube: Option<u32>,
    pub foam: Option<u32>,
    pub global_shape: Option<u32>,
}

pub open spec fn water_bindings(v: WaterViews, lm: Option<LightmapInputs>) -> Seq<Binding> {
    seq![
        Binding { binding: 0, resource: Resource::Texture(crate::mesh::tex_or(v.watercolor, Tex::Blank)) },
        Binding { binding: 1, resource: Resource::Sampler(SamplerId::Mesh) },
        Binding { binding: 2, resource: Resource::Uniform },
        Binding { binding: 3, resource: Resource::Texture(crate::mesh::tex_or(v.slope, Tex::Blank)) },
        Binding { binding: 4, resource: Resource::Texture(crate::mesh::tex_or(v.foam, Tex::Blank)) },
        Binding { binding: 10, resource: Resource::Cube(crate::mesh::cube_or(v.env_cube)) },
        Binding { binding: 11, resource: Resource::Sampler(SamplerId::Env) },
        Binding { binding: 12, resource: Resource::Texture(crate::mesh::tex_or(v.global_shape, Tex::Blank)) },
        Binding { binding: 13, resource: Resource::Texture(crate::mesh::lm_textures(lm).0) },
        Binding { binding: 14, resource: Resource::Texture(crate::mesh::lm_textures(lm).1) },
        Binding { binding: 15, resource: Resource::Sampler(SamplerId::Lightmap) },
        Binding { binding: 16, resource: Resource::Texture(crate::mesh::lm_textures(lm).2) },
        Binding { binding: 17, resource: Resource::Texture(crate::mesh::lm_textures(lm).3) },
    ]
}

/// A water material fills its layout, whatever it binds.
pub proof fn law_water_material_fills_its_layout(v: WaterViews, lm: Option<LightmapInputs>)
    ensures
        layout::fill(layout::water_entries(), water_bindings(v, lm)),
{
}

impl MeshRenderer {
    /// Upload a water mesh.
    pub fn upload_water_mesh(
        &mut self,
        p: &mut MemProf,
        verts: &Vec<MeshVertex>,
        indices: &Vec<u32>,
        views: WaterViews,
        params: &WaterParams,
        lm: Option<LightmapInputs>,
    ) -> (u: MeshUpload)
        requires
            old(p).wf(),
        ensures
            final(p).wf(),
            *final(self) == (MeshRenderer { fallbacks: true, ..*old(self) }),
            crate::mesh::is_fallback_step(u.fallbacks, old(self).fallbacks),
            crate::mesh::is_plain_mesh(u.mesh, false, indices@.len() as int, identity()),
            u.instances@ == crate::mesh::instance_words_of(seq![crate::mesh::plain_instance(identity(), lm)]),
            u.material.layout == MaterialLayout::Water,
            u.material.bindings@ == water_bindings(views, lm),
            u.material.uniform@ == crate::words::lane_words(params.lanes()),
            u.material.textures@.len() == 0,
            final(p).totals() == crate::mesh::totals_with_texels(
                old(p).totals(),
                crate::mesh::texels_created(old(self).fallbacks, false),
            ),
            forall|name: Seq<char>|
                #![trigger final(p).category(name)]
                final(p).category(name) == crate::mesh::notes_with_texels(
                    crate::mesh::noted_if(
                        old(p).category(name),
                        name,
                        "buf:water-vb/ib"@,
                        crate::mesh::geometry_bytes(verts@.len() as int, indices@.len() as int) as u64,
                    ),
                    name,
                    crate::mesh::texels_created(old(self).fallbacks, false),
                ),
    {
        memprof::note(p, "buf:water-vb/ib", geometry_size(verts.len(), indices.len()));
        let fallbacks: Option<FallbackPlan> = self.build_fallbacks(p);
        let t: (Tex, Tex, Tex, Tex) = lightmap_textures(&lm);
        let bindings: Vec<Binding> = vec![
            Binding { binding: 0, resource: Resource::Texture(view_or(views.watercolor, Tex::Blank)) },
            Binding { binding: 1, resource: Resource::Sampler(SamplerId::Mesh) },
            Binding { binding: 2, resource: Resource::Uniform },
            Binding { binding: 3, resource: Resource::Texture(view_or(views.slope, Tex::Blank)) },
            Binding { binding: 4, resource: Resource::Texture(view_or(views.foam, Tex::Blank)) },
            Binding { binding: 10, resource: Resource::Cube(env_or(views.env_cube)) },
            Binding { binding: 11, resource: Resource::Sampler(SamplerId::Env) },
            Binding {
                binding: 12,
                resource: Resource::Texture(view_or(views.global_shape, Tex::Blank)),
            },
            Binding { binding: 13, resource: Resource::Texture(t.0) },
            Binding { binding: 14, resource: Resource::Texture(t.1) },
            Binding { binding: 15, resource: Resource::Sampler(SamplerId::Lightmap) },
            Binding { binding: 16, resource: Resource::Texture(t.2) },
            Binding { binding: 17, resource: Resource::Texture(t.3) },
        ];
        assert(bindings@ =~= water_bindings(views, lm));
        let block: Vec<Vec4> = params.vectors();
        let uniform: Vec<u32> = words_of(&block);
        MeshUpload {
            mesh: plain_mesh(false, indices.len(), &identity()),
            instances: single_record(place_once(identity(), &lm)),
            material: Material {
                layout: MaterialLayout::Water,
                bindings,
                uniform,
                textures: Vec::new(),
            },
            fallbacks,
        }
    }
}

/// The words of the water block as the shader declares them: fifteen vectors in this order.
pub proof fn law_water_words(p: WaterParams)
    ensures
        ({
            let w = crate::words::lane_words(p.lanes());
            &&& w.len() == 60
            &&& crate::words::lanes_at(w, 0, p.p0)
            &&& crate::words::lanes_at(w, 4, p.p1)
            &&& crate::words::lanes_at(w, 8, p.deep)
            &&& crate::words::lanes_at(w, 12, p.wave)
            &&& crate::words::lanes_at(w, 16, p.edge)
            &&& crate::words::lanes_at(w, 20, p.diff)
            &&& crate::words::lanes_at(w, 24, p.env)
            &&& crate::words::lanes_at(w, 28, p.foam)
            &&& crate::words::lanes_at(w, 32, p.xform2)
            &&& crate::words::lanes_at(w, 36, p.body)
            &&& crate::words::lanes_at(w, 40, p.anim)
            &&& crate::words::lanes_at(w, 44, p.scroll)
            &&& crate::words::lanes_at(w, 48, p.detail)
            &&& crate::words::lanes_at(w, 52, p.wcxf)
            &&& crate::words::lanes_at(w, 56, p.cat)
        }),
{
}

/// Every view of a water material is bound at the slot where the shader reads it; a missing one is
/// blank, a missing cube the captured sky.
pub proof fn law_water_views_reach_their_slots(v: WaterViews, lm: Option<LightmapInputs>)
    ensures
        ({
            let b = water_bindings(v, lm);
            &&& b.len() == 13
            &&& forall|i: int| 0 <= i < 5 ==> (#[trigger] b[i]).binding == i
            &&& forall|i: int| 5 <= i < 13 ==> (#[trigger] b[i]).binding == i + 5
            &&& v.watercolor matches Some(x) ==> b[0].resource == Resource::Texture(Tex::View(x))
            &&& v.slope matches Some(x) ==> b[3].resource == Resource::Texture(Tex::View(x))
            &&& v.foam matches Some(x) ==> b[4].resource == Resource::Texture(Tex::View(x))
            &&& v.env_cube matches Some(x) ==> b[5].resource == Resource::Cube(
                layout::Cube::View(x),
            )
            &&& v.global_shape matches Some(x) ==> b[7].resource == Resource::Texture(
                Tex::View(x),
            )
            &&& v.watercolor is None ==> b[0].resource == Resource::Texture(Tex::Blank)
            &&& v.slope is None ==> b[3].resource == Resource::Texture(Tex::Blank)
            &&& v.foam is None ==> b[4].resource == Resource::Texture(Tex::Blank)
            &&& v.env_cube is None ==> b[5].resource == Resource::Cube(layout::Cube::Captured)
            &&& v.global_shape is None ==> b[7].resource == Resource::Texture(Tex::Blank)
            &&& b[1].resource == Resource::Sampler(SamplerId::Mesh)
            &&& b[2].resource == Resource::Uniform
            &&& b[6].resource == Resource::Sampler(SamplerId::Env)
            &&& b[10].resource == Resource::Sampler(SamplerId::Lightmap)
            &&& crate::mesh::is_atlas(
                lm,
                b[8].resource,
                b[9].resource,
                b[11].resource,
                b[12].resource,
            )
        }),
{
}

/// What neutral water is made of, as numbers.
pub proof fn law_neutral_water()
    ensures
        ({
            let w = default_water();
            let one = crate::f32bits::f32_units(F32_ONE);
            &&& w.p0.x == F32_ONE
            &&& crate::f32bits::f32_units(w.p0.y) == 8 * one
            &&& crate::f32bits::f32_units(w.p0.z) == 4 * one
            &&& crate::f32bits::is_nearest(w.p0.w, 8, 10)
            &&& w.p1.x == F32_ONE && w.p1.y == F32_ONE
            &&& crate::f32bits::is_nearest(w.p1.z, 1, 10)
            &&& crate::f32bits::is_nearest(w.p1.w, 7, 100)
            &&& crate::f32bits::is_nearest(w.deep.x, 15, 1000)
            &&& crate::f32bits::is_nearest(w.deep.y, 5, 100)
            &&& crate::f32bits::is_nearest(w.deep.z, 8, 100)
            &&& w.deep.w == 0
            &&& w.wave == crate::mesh::white()
            &&& crate::f32bits::f32_units(w.edge.x) == 30 * one
            &&& w.edge.y == F32_ONE && w.edge.z == 0
            &&& crate::f32bits::is_nearest(w.edge.w, 7, 10)
            &&& w.diff.x == 0
            &&& crate::f32bits::is_nearest(w.diff.y, 2, 100)
            &&& crate::f32bits::is_nearest(w.diff.z, 4, 100)
            &&& crate::f32bits::is_nearest(w.diff.w, 2, 10)
            &&& w.env.x == 0 && w.env.z == 0 && w.env.w == 0
            &&& crate::f32bits::f32_units(w.env.y) == 256 * one
            &&& w.foam.x == F32_ONE && w.foam.y == F32_ONE && w.foam.w == 0
            &&& crate::f32bits::is_nearest(w.foam.z, 1, 2)
            &&& w.xform2 == zero4() && w.body == zero4() && w.anim == zero4() && w.scroll == zero4()
            &&& (w.detail.x, w.detail.y, w.detail.z, w.detail.w) == (
                F32_ONE,
                F32_ONE,
                F32_ONE,
                0u32,
            )
            &&& (w.wcxf.x, w.wcxf.y, w.wcxf.z, w.wcxf.w) == (F32_ONE, F32_ONE, 0u32, 0u32)
            &&& (w.cat.x, w.cat.y, w.cat.z, w.cat.w) == (F32_ONE, F32_ONE, F32_ONE, 0u32)
        }),
{
    vstd::arithmetic::power2::lemma2_to64();
    crate::f32bits::lemma_nearest(0x3f4c_cccd, 126, 0x4ccccd, 8, 10);
    crate::f32bits::lemma_nearest(0x3dcc_cccd, 123, 0x4ccccd, 1, 10);
    crate::f32bits::lemma_nearest(0x3d8f_5c29, 123, 0xf5c29, 7, 100);
    crate::f32bits::lemma_nearest(0x3c75_c28f, 120, 0x75c28f, 15, 1000);
    crate::f32bits::lemma_nearest(0x3d4c_cccd, 122, 0x4ccccd, 5, 100);
    crate::f32bits::lemma_nearest(0x3da3_d70a, 123, 0x23d70a, 8, 100);
    crate::f32bits::lemma_nearest(0x3f33_3333, 126, 0x333333, 7, 10);
    crate::f32bits::lemma_nearest(0x3ca3_d70a, 121, 0x23d70a, 2, 100);
    crate::f32bits::lemma_nearest(0x3d23_d70a, 122, 0x23d70a, 4, 100);
    crate::f32bits::lemma_nearest(0x3e4c_cccd, 124, 0x4ccccd, 2, 10);
    crate::f32bits::lemma_nearest(0x3f00_0000, 126, 0x0, 1, 2);
    crate::f32bits::lemma_whole_number(0x4100_0000, 130, 0x0, 8);
    crate::f32bits::lemma_whole_number(0x4080_0000, 129, 0x0, 4);
    crate::f32bits::lemma_whole_number(0x41f0_0000, 131, 0x700000, 30);
    crate::f32bits::lemma_whole_number(0x4380_0000, 135, 0x0, 256);
}

} // verus!
