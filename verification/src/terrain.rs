//! Terrain meshes: four layers blended by a mask.

use crate::f32bits;
use crate::layout;
use crate::layout::{Binding, Resource, SamplerId, Tex};
use crate::memprof;
use crate::memprof::MemProf;
use crate::mesh::{
    geometry_size, lightmap_textures, place_once, plain_mesh, single_record, FallbackPlan,
    LightmapInputs, Mat4, Material, MeshUpload, MeshVertex,
};
use crate::pipeline::{MaterialLayout, MeshRenderer};
use crate::words::{words_of, Vec2, Vec4};
use vstd::prelude::*;

verus! {

/// Parameters of a terrain material, one entry per layer where there are four.
#[derive(Clone, Copy)]
pub struct TerrainMaterialParams {
    pub base_tile: [Vec2; 4],
    pub base_offset: [Vec2; 4],
    pub detail_tile: [Vec2; 4],
    pub detail_offset: [Vec2; 4],
    pub blend_xform: Vec4,
    pub global_tint: Vec4,
    pub active: Vec4,
    pub detail_present: Vec4,
    pub bump_tile: [Vec2; 4],
    pub bump_offset: [Vec2; 4],
    pub bump_present: Vec4,
    pub detail_bump_tile: [Vec2; 4],
    pub detail_bump_offset: [Vec2; 4],
    pub detail_bump_present: Vec4,
    /// Travels in the last lane of the tint.
    pub uv_density: u32,
    /// Distance blend: mode, slope and offset.
    pub dbb_mode: u32,
    pub dbb_slope: u32,
    pub dbb_offset: u32,
    pub blend_target: [Vec4; 4],
    pub blend_max: Vec4,
    pub base_curve: Vec4,
    pub detail_curve: Vec4,
    pub bump_snorm: Vec4,
    pub detail_bump_snorm: Vec4,
}

/// A scale and an offset as one transform.
pub open spec fn xform_of(tile: Vec2, offset: Vec2) -> Vec4 {
    Vec4 { x: tile.x, y: tile.y, z: offset.x, w: offset.y }
}

/// Both scales are one within a ten-thousandth: the authored scale did not resolve.
pub open spec fn is_unresolved(tile: Vec2) -> bool {
    f32bits::within_tenth_of_milli_of_one(tile.x) && f32bits::within_tenth_of_milli_of_one(tile.y)
}

/// The transform of a fine layer: its own, or eight times the base scale where it did not resolve.
pub open spec fn is_fine_xform(v: Vec4, tile: Vec2, offset: Vec2, base: Vec2) -> bool {
    &&& v.z == offset.x
    &&& v.w == offset.y
    &&& if is_unresolved(tile) {
        f32bits::is_eight_times(base.x, v.x) && f32bits::is_eight_times(base.y, v.y)
    } else {
        v.x == tile.x && v.y == tile.y
    }
}

fn fine_xform(tile: Vec2, offset: Vec2, base: Vec2) -> (v: Vec4)
    ensures
        is_fine_xform(v, tile, offset, base),
{
    if f32bits::near_one(tile.x) && f32bits::near_one(tile.y) {
        Vec4 {
            x: f32bits::times_eight(base.x),
            y: f32bits::times_eight(base.y),
            z: offset.x,
            w: offset.y,
        }
    } else {
        Vec4 { x: tile.x, y: tile.y, z: offset.x, w: offset.y }
    }
}

/// The uniform block of a terrain material: thirty-two vectors.
pub open spec fn is_terrain_block(p: TerrainMaterialParams, v: Seq<Vec4>) -> bool {
    &&& v.len() == 32
    &&& forall|l: int|
        #![trigger p.base_tile@[l]]
        0 <= l < 4 ==> {
            &&& v[l] == xform_of(p.base_tile@[l], p.base_offset@[l])
            &&& is_fine_xform(
                v[4 + l],
                p.detail_tile@[l],
                p.detail_offset@[l],
                p.base_tile@[l],
            )
            &&& v[12 + l] == xform_of(p.bump_tile@[l], p.bump_offset@[l])
            &&& v[18 + l] == p.blend_target@[l]
            &&& is_fine_xform(
                v[23 + l],
                p.detail_bump_tile@[l],
                p.detail_bump_offset@[l],
                p.base_tile@[l],
            )
        }
    &&& v[8] == p.blend_xform
    &&& v[9] == (Vec4 { w: p.uv_density, ..p.global_tint })
    &&& v[10] == p.active
    &&& v[11] == p.detail_present
    &&& v[16] == p.bump_present
    &&& v[17] == (Vec4 { x: p.dbb_mode, y: p.dbb_slope, z: p.dbb_offset, w: 0 })
    &&& v[22] == p.blend_max
    &&& v[27] == p.detail_bump_present
    &&& v[28] == p.base_curve
    &&& v[29] == p.detail_curve
    &&& v[30] == p.bump_snorm
    &&& v[31] == p.detail_bump_snorm
}

fn terrain_block(p: &TerrainMaterialParams) -> (v: Vec<Vec4>)
    ensures
        is_terrain_block(*p, v@),
{
    let mut v: Vec<Vec4> = Vec::new();
    let mut l: usize = 0;
    while l < 4
        invariant
            l <= 4,
            v@.len() == l,
            forall|k: int|
                0 <= k < l ==> #[trigger] v@[k] == xform_of(p.base_tile@[k], p.base_offset@[k]),
        decreases 4 - l,
    {
        v.push(
            Vec4 {
                x: p.base_tile[l].x,
                y: p.base_tile[l].y,
                z: p.base_offset[l].x,
                w: p.base_offset[l].y,
            },
        );
        l = l + 1;
    }
    let ghost first = v@;
    l = 0;
    while l < 4
        invariant
            l <= 4,
            first.len() == 4,
            v@.len() == 4 + l,
            v@.take(4) == first,
            forall|k: int|
                0 <= k < l ==> is_fine_xform(
                    #[trigger] v@[4 + k],
                    p.detail_tile@[k],
                    p.detail_offset@[k],
                    p.base_tile@[k],
                ),
        decreases 4 - l,
    {
        let ghost before = v@;
        v.push(fine_xform(p.detail_tile[l], p.detail_offset[l], p.base_tile[l]));
        proof {
            assert(v@.take(4) =~= before.take(4));
            assert forall|k: int| 0 <= k < l + 1 implies is_fine_xform(
                #[trigger] v@[4 + k],
                p.detail_tile@[k],
                p.detail_offset@[k],
                p.base_tile@[k],
            ) by {
                if k < l {
                    assert(v@[4 + k] == before[4 + k]);
                }
            }
        }
        l = l + 1;
    }
    v.push(p.blend_xform);
    let mut tint: Vec4 = p.global_tint;
    tint.w = p.uv_density;
    v.push(tint);
    v.push(p.active);
    v.push(p.detail_present);
    let ghost second = v@;
    assert(second.take(4) =~= first);
    l = 0;
    while l < 4
        invariant
            l <= 4,
            second.len() == 12,
            v@.len() == 12 + l,
            v@.take(12) == second,
            forall|k: int|
                0 <= k < l ==> #[trigger] v@[12 + k] == xform_of(
                    p.bump_tile@[k],
                    p.bump_offset@[k],
                ),
        decreases 4 - l,
    {
        let ghost before = v@;
        v.push(
            Vec4 {
                x: p.bump_tile[l].x,
                y: p.bump_tile[l].y,
                z: p.bump_offset[l].x,
                w: p.bump_offset[l].y,
            },
        );
        proof {
            assert(v@.take(12) =~= before.take(12));
            assert forall|k: int| 0 <= k < l + 1 implies #[trigger] v@[12 + k] == xform_of(
                p.bump_tile@[k],
                p.bump_offset@[k],
            ) by {
                if k < l {
                    assert(v@[12 + k] == before[12 + k]);
                }
            }
        }
        l = l + 1;
    }
    v.push(p.bump_present);
    v.push(Vec4 { x: p.dbb_mode, y: p.dbb_slope, z: p.dbb_offset, w: 0 });
    v.push(p.blend_target[0]);
    v.push(p.blend_target[1]);
    v.push(p.blend_target[2]);
    v.push(p.blend_target[3]);
    v.push(p.blend_max);
    let ghost third = v@;
    l = 0;
    while l < 4
        invariant
            l <= 4,
            third.len() == 23,
            v@.len() == 23 + l,
            v@.take(23) == third,
            forall|k: int|
                0 <= k < l ==> is_fine_xform(
                    #[trigger] v@[23 + k],
                    p.detail_bump_tile@[k],
                    p.detail_bump_offset@[k],
                    p.base_tile@[k],
                ),
        decreases 4 - l,
    {
        let ghost before = v@;
        v.push(fine_xform(p.detail_bump_tile[l], p.detail_bump_offset[l], p.base_tile[l]));
        proof {
            assert(v@.take(23) =~= before.take(23));
            assert forall|k: int| 0 <= k < l + 1 implies is_fine_xform(
                #[trigger] v@[23 + k],
                p.detail_bump_tile@[k],
                p.detail_bump_offset@[k],
                p.base_tile@[k],
            ) by {
                if k < l {
                    assert(v@[23 + k] == before[23 + k]);
                }
            }
        }
        l = l + 1;
    }
    v.push(p.detail_bump_present);
    v.push(p.base_curve);
    v.push(p.detail_curve);
    v.push(p.bump_snorm);
    v.push(p.detail_bump_snorm);
    proof {
        assert forall|k: int| 0 <= k < 23 implies #[trigger] v@[k] == third[k] by {
            assert(v@[k] == v@.take(23)[k]);
        }
        assert forall|k: int| 0 <= k < 12 implies #[trigger] third[k] == second[k] by {
            assert(third[k] == third.take(12)[k]);
        }
        assert forall|k: int| 0 <= k < 4 implies #[trigger] second[k] == first[k] by {
            assert(second[k] == second.take(4)[k]);
        }
        assert forall|l: int|
            #![trigger p.base_tile@[l]]
            0 <= l < 4 implies {
            &&& v@[l] == xform_of(p.base_tile@[l], p.base_offset@[l])
            &&& is_fine_xform(
                v@[4 + l],
                p.detail_tile@[l],
                p.detail_offset@[l],
                p.base_tile@[l],
            )
            &&& v@[12 + l] == xform_of(p.bump_tile@[l], p.bump_offset@[l])
            &&& v@[18 + l] == p.blend_target@[l]
            &&& is_fine_xform(
                v@[23 + l],
                p.detail_bump_tile@[l],
                p.detail_bump_offset@[l],
                p.base_tile@[l],
            )
        } by {
            assert(v@[4 + l] == third[4 + l] && third[4 + l] == second[4 + l]);
            assert(v@[12 + l] == third[12 + l]);
            assert(v@[18 + l] == third[18 + l]);
        }
    }
    v
}

/// The views of a terrain material.
#[derive(Clone, Copy)]
pub struct TerrainViews {
    pub base: [u32; 4],
    pub detail: [u32; 4],
    pub blend: u32,
    pub bump: [u32; 4],
    pub detail_bump: [u32; 4],
}

pub open spec fn terrain_bindings(v: TerrainViews, lm: Option<LightmapInputs>) -> Seq<Binding> {
    seq![
        Binding { binding: 0, resource: Resource::Texture(Tex::View(v.base@[0])) },
        Binding { binding: 1, resource: Resource::Texture(Tex::View(v.base@[1])) },
        Binding { binding: 2, resource: Resource::Texture(Tex::View(v.base@[2])) },
        Binding { binding: 3, resource: Resource::Texture(Tex::View(v.base@[3])) },
        Binding { binding: 4, resource: Resource::Texture(Tex::View(v.blend)) },
        Binding { binding: 5, resource: Resource::Sampler(SamplerId::Mesh) },
        Binding { binding: 6, resource: Resource::Uniform },
        Binding { binding: 7, resource: Resource::Texture(Tex::View(v.detail@[0])) },
        Binding { binding: 8, resource: Resource::Texture(Tex::View(v.detail@[1])) },
        Binding { binding: 9, resource: Resource::Texture(Tex::View(v.detail@[2])) },
        Binding { binding: 10, resource: Resource::Texture(Tex::View(v.detail@[3])) },
        Binding { binding: 11, resource: Resource::Texture(Tex::View(v.bump@[0])) },
        Binding { binding: 12, resource: Resource::Texture(Tex::View(v.bump@[1])) },
        Binding { binding: 13, resource: Resource::Texture(Tex::View(v.bump@[2])) },
        Binding { binding: 14, resource: Resource::Texture(Tex::View(v.bump@[3])) },
        Binding { binding: 15, resource: Resource::Texture(Tex::View(v.detail_bump@[0])) },
        Binding { binding: 16, resource: Resource::Texture(Tex::View(v.detail_bump@[1])) },
        Binding { binding: 17, resource: Resource::Texture(Tex::View(v.detail_bump@[2])) },
        Binding { binding: 18, resource: Resource::Texture(Tex::View(v.detail_bump@[3])) },
        Binding { binding: 19, resource: Resource::Texture(crate::mesh::lm_textures(lm).0) },
        Binding { binding: 20, resource: Resource::Texture(crate::mesh::lm_textures(lm).1) },
        Binding { binding: 21, resource: Resource::Sampler(SamplerId::Lightmap) },
        Binding { binding: 22, resource: Resource::Texture(crate::mesh::lm_textures(lm).2) },
        Binding { binding: 23, resource: Resource::Texture(crate::mesh::lm_textures(lm).3) },
    ]
}

/// A terrain material fills its layout, whatever it binds.
pub proof fn law_terrain_material_fills_its_layout(v: TerrainViews, lm: Option<LightmapInputs>)
    ensures
        layout::fill(layout::terrain_entries(), terrain_bindings(v, lm)),
{
}

impl MeshRenderer {
    /// Upload a terrain mesh: four layers blended by a mask, each with its own transforms.
    pub fn upload_terrain_mesh(
        &mut self,
        p: &mut MemProf,
        verts: &Vec<MeshVertex>,
        indices: &Vec<u32>,
        views: &TerrainViews,
        params: &TerrainMaterialParams,
        lm: Option<LightmapInputs>,
        model: Mat4,
    ) -> (u: MeshUpload)
        requires
            old(p).wf(),
        ensures
            final(p).wf(),
            *final(self) == (MeshRenderer { fallbacks: true, ..*old(self) }),
            crate::mesh::is_fallback_step(u.fallbacks, old(self).fallbacks),
            crate::mesh::is_plain_mesh(u.mesh, true, indices@.len() as int, model),
            u.instances@ == crate::mesh::instance_words_of(seq![crate::mesh::plain_instance(model, lm)]),
            u.material.layout == MaterialLayout::Terrain,
            u.material.bindings@ == terrain_bindings(*views, lm),
            exists|v: Seq<Vec4>| #[trigger]
                is_terrain_block(*params, v) && u.material.uniform@ == crate::words::lane_words(v),
            u.material.textures@.len() == 0,
            final(p).totals() == crate::mesh::totals_with_texels(
                old(p).totals(),
                crate::mesh::texels_created(old(self).fallbacks, false),
            ),
            forall|name: Seq<char>|
                #![trigger final(p).category(name)]
                final(p).category(name) == crate::mesh::notes_with_texels(
                    crate::mesh::noted_if(
                        old(p).category(name),
                        name,
                        "buf:terrain-vb/ib"@,
                        crate::mesh::geometry_bytes(verts@.len() as int, indices@.len() as int) as u64,
                    ),
                    name,
                    crate::mesh::texels_created(old(self).fallbacks, false),
                ),
    {
        memprof::note(p, "buf:terrain-vb/ib", geometry_size(verts.len(), indices.len()));
        let fallbacks: Option<FallbackPlan> = self.build_fallbacks(p);
        let t: (Tex, Tex, Tex, Tex) = lightmap_textures(&lm);
        let bindings: Vec<Binding> = vec![
            Binding { binding: 0, resource: Resource::Texture(Tex::View(views.base[0])) },
            Binding { binding: 1, resource: Resource::Texture(Tex::View(views.base[1])) },
            Binding { binding: 2, resource: Resource::Texture(Tex::View(views.base[2])) },
            Binding { binding: 3, resource: Resource::Texture(Tex::View(views.base[3])) },
            Binding { binding: 4, resource: Resource::Texture(Tex::View(views.blend)) },
            Binding { binding: 5, resource: Resource::Sampler(SamplerId::Mesh) },
            Binding { binding: 6, resource: Resource::Uniform },
            Binding { binding: 7, resource: Resource::Texture(Tex::View(views.detail[0])) },
            Binding { binding: 8, resource: Resource::Texture(Tex::View(views.detail[1])) },
            Binding { binding: 9, resource: Resource::Texture(Tex::View(views.detail[2])) },
            Binding { binding: 10, resource: Resource::Texture(Tex::View(views.detail[3])) },
            Binding { binding: 11, resource: Resource::Texture(Tex::View(views.bump[0])) },
            Binding { binding: 12, resource: Resource::Texture(Tex::View(views.bump[1])) },
            Binding { binding: 13, resource: Resource::Texture(Tex::View(views.bump[2])) },
            Binding { binding: 14, resource: Resource::Texture(Tex::View(views.bump[3])) },
            Binding { binding: 15, resource: Resource::Texture(Tex::View(views.detail_bump[0])) },
            Binding { binding: 16, resource: Resource::Texture(Tex::View(views.detail_bump[1])) },
            Binding { binding: 17, resource: Resource::Texture(Tex::View(views.detail_bump[2])) },
            Binding { binding: 18, resource: Resource::Texture(Tex::View(views.detail_bump[3])) },
            Binding { binding: 19, resource: Resource::Texture(t.0) },
            Binding { binding: 20, resource: Resource::Texture(t.1) },
            Binding { binding: 21, resource: Resource::Sampler(SamplerId::Lightmap) },
            Binding { binding: 22, resource: Resource::Texture(t.2) },
            Binding { binding: 23, resource: Resource::Texture(t.3) },
        ];
        assert(bindings@ =~= terrain_bindings(*views, lm));
        let block: Vec<Vec4> = terrain_block(params);
        let uniform: Vec<u32> = words_of(&block);
        MeshUpload {
            mesh: plain_mesh(true, indices.len(), &model),
            instances: single_record(place_once(model, &lm)),
            material: Material {
                layout: MaterialLayout::Terrain,
                bindings,
                uniform,
                textures: Vec::new(),
            },
            fallbacks,
        }
    }
}

/// The words of each layer in the terrain block: its base transform from word 0 on, its fine
/// transforms from 16 and 92, its bump transform from 48 and its blend target from 72, four words
/// further for each layer.
pub proof fn law_terrain_layer_words(p: TerrainMaterialParams, v: Seq<Vec4>, l: int)
    requires
        is_terrain_block(p, v),
        0 <= l < 4,
    ensures
        ({
            let w = crate::words::lane_words(v);
            &&& w.len() == 128
            &&& (w[4 * l], w[4 * l + 1]) == (p.base_tile@[l].x, p.base_tile@[l].y)
            &&& (w[4 * l + 2], w[4 * l + 3]) == (p.base_offset@[l].x, p.base_offset@[l].y)
            &&& (w[4 * l + 18], w[4 * l + 19]) == (p.detail_offset@[l].x, p.detail_offset@[l].y)
            &&& (w[4 * l + 48], w[4 * l + 49]) == (p.bump_tile@[l].x, p.bump_tile@[l].y)
            &&& (w[4 * l + 50], w[4 * l + 51]) == (p.bump_offset@[l].x, p.bump_offset@[l].y)
            &&& crate::words::lanes_at(w, 4 * l + 72, p.blend_target@[l])
            &&& (w[4 * l + 94], w[4 * l + 95]) == (
                p.detail_bump_offset@[l].x,
                p.detail_bump_offset@[l].y,
            )
        }),
{
    let w = crate::words::lane_words(v);
    let b = p.base_tile@[l];
    crate::words::law_vectors_follow_each_other(v, l);
    crate::words::law_vectors_follow_each_other(v, 4 + l);
    crate::words::law_vectors_follow_each_other(v, 12 + l);
    crate::words::law_vectors_follow_each_other(v, 18 + l);
    crate::words::law_vectors_follow_each_other(v, 23 + l);
    assert(v[l] == xform_of(b, p.base_offset@[l]));
    assert(crate::words::lanes_at(w, 4 * l, v[l]));
    assert(crate::words::lanes_at(w, 4 * l + 16, v[4 + l]));
    assert(crate::words::lanes_at(w, 4 * l + 48, v[12 + l]));
    assert(crate::words::lanes_at(w, 4 * l + 72, v[18 + l]));
    assert(crate::words::lanes_at(w, 4 * l + 92, v[23 + l]));
    assert(w[4 * l + 18] == v[4 + l].z && w[4 * l + 19] == v[4 + l].w);
    assert(w[4 * l + 50] == v[12 + l].z && w[4 * l + 51] == v[12 + l].w);
    assert(w[4 * l + 94] == v[23 + l].z && w[4 * l + 95] == v[23 + l].w);
}

/// The words that the layers of a terrain block share.
pub proof fn law_terrain_words(p: TerrainMaterialParams, v: Seq<Vec4>)
    requires
        is_terrain_block(p, v),
    ensures
        ({
            let w = crate::words::lane_words(v);
            &&& crate::words::lanes_at(w, 32, p.blend_xform)
            &&& (w[36], w[37], w[38]) == (p.global_tint.x, p.global_tint.y, p.global_tint.z)
            &&& w[39] == p.uv_density
            &&& crate::words::lanes_at(w, 40, p.active)
            &&& crate::words::lanes_at(w, 44, p.detail_present)
            &&& crate::words::lanes_at(w, 64, p.bump_present)
            &&& (w[68], w[69], w[70]) == (p.dbb_mode, p.dbb_slope, p.dbb_offset)
            &&& crate::words::lanes_at(w, 88, p.blend_max)
            &&& crate::words::lanes_at(w, 108, p.detail_bump_present)
            &&& crate::words::lanes_at(w, 112, p.base_curve)
            &&& crate::words::lanes_at(w, 116, p.detail_curve)
            &&& crate::words::lanes_at(w, 120, p.bump_snorm)
            &&& crate::words::lanes_at(w, 124, p.detail_bump_snorm)
        }),
{
    crate::words::law_vectors_follow_each_other(v, 8);
    crate::words::law_vectors_follow_each_other(v, 9);
    crate::words::law_vectors_follow_each_other(v, 10);
    crate::words::law_vectors_follow_each_other(v, 11);
    crate::words::law_vectors_follow_each_other(v, 16);
    crate::words::law_vectors_follow_each_other(v, 17);
    crate::words::law_vectors_follow_each_other(v, 22);
    crate::words::law_vectors_follow_each_other(v, 27);
    crate::words::law_vectors_follow_each_other(v, 28);
    crate::words::law_vectors_follow_each_other(v, 29);
    crate::words::law_vectors_follow_each_other(v, 30);
    crate::words::law_vectors_follow_each_other(v, 31);
}

/// The scale of a fine layer: the authored one where it is further than 1e-4 from one on some axis,
/// else eight times the scale of the base layer it lies on.
pub proof fn law_fine_scale(p: TerrainMaterialParams, v: Seq<Vec4>, l: int)
    requires
        is_terrain_block(p, v),
        0 <= l < 4,
    ensures
        is_fine_scale(v[4 + l].x, v[4 + l].y, p.detail_tile@[l], p.base_tile@[l]),
        is_fine_scale(v[23 + l].x, v[23 + l].y, p.detail_bump_tile@[l], p.base_tile@[l]),
{
    assert(p.base_tile@[l] == p.base_tile@[l]);
    let (a, b) = (v[4 + l], v[23 + l]);
    lemma_fine_scale(a, p.detail_tile@[l], p.detail_offset@[l], p.base_tile@[l]);
    lemma_fine_scale(b, p.detail_bump_tile@[l], p.detail_bump_offset@[l], p.base_tile@[l]);
}

/// The two scales that a fine layer gets.
pub open spec fn is_fine_scale(x: u32, y: u32, tile: Vec2, base: Vec2) -> bool {
    let one = f32bits::f32_units(f32bits::F32_ONE);
    let eps = f32bits::f32_units(f32bits::F32_TENTH_OF_MILLI);
    let (dx, dy) = (f32bits::f32_units(tile.x) - one, f32bits::f32_units(tile.y) - one);
    let authored = f32bits::is_nan(tile.x) || f32bits::is_nan(tile.y) || dx >= eps || -dx >= eps
        || dy >= eps || -dy >= eps;
    &&& authored ==> x == tile.x && y == tile.y
    &&& !authored && f32bits::is_finite(base.x) && f32bits::is_finite(x)
        ==> f32bits::f32_units(x) == 8 * f32bits::f32_units(base.x)
    &&& !authored && f32bits::is_finite(base.y) && f32bits::is_finite(y)
        ==> f32bits::f32_units(y) == 8 * f32bits::f32_units(base.y)
    &&& !authored ==> (x >= f32bits::F32_SIGN <==> base.x >= f32bits::F32_SIGN) && (y
        >= f32bits::F32_SIGN <==> base.y >= f32bits::F32_SIGN)
}

proof fn lemma_fine_scale(v: Vec4, tile: Vec2, offset: Vec2, base: Vec2)
    requires
        is_fine_xform(v, tile, offset, base),
    ensures
        is_fine_scale(v.x, v.y, tile, base),
{
    if is_unresolved(tile) {
        if f32bits::is_finite(base.x) {
            f32bits::law_eight_times(base.x, v.x);
        }
        if f32bits::is_finite(base.y) {
            f32bits::law_eight_times(base.y, v.y);
        }
    }
}

/// Every view of a terrain material is bound at the slot of its layer: bases from 0, the mask at 4,
/// details from 7, bumps from 11, fine bumps from 15; the atlas at 19, 20, 22 and 23.
pub proof fn law_terrain_views_reach_their_slots(
    v: TerrainViews,
    lm: Option<LightmapInputs>,
    l: int,
)
    requires
        0 <= l < 4,
    ensures
        ({
            let b = terrain_bindings(v, lm);
            &&& b.len() == 24
            &&& forall|i: int| 0 <= i < 24 ==> (#[trigger] b[i]).binding == i
            &&& b[l].resource == Resource::Texture(Tex::View(v.base@[l]))
            &&& b[4].resource == Resource::Texture(Tex::View(v.blend))
            &&& b[5].resource == Resource::Sampler(SamplerId::Mesh)
            &&& b[6].resource == Resource::Uniform
            &&& b[7 + l].resource == Resource::Texture(Tex::View(v.detail@[l]))
            &&& b[11 + l].resource == Resource::Texture(Tex::View(v.bump@[l]))
            &&& b[15 + l].resource == Resource::Texture(Tex::View(v.detail_bump@[l]))
            &&& b[21].resource == Resource::Sampler(SamplerId::Lightmap)
            &&& crate::mesh::is_atlas(
                lm,
                b[19].resource,
                b[20].resource,
                b[22].resource,
                b[23].resource,
            )
        }),
{
}

} // verus!
