use hms_render::cube;
use hms_render::layout;
use hms_render::layout::{AttrFormat, BindKind, Binding, Cube, Resource, SamplerId, Stage, Tex};
use hms_render::memprof;
use hms_render::memprof::MemProf;
use hms_render::mesh;
use hms_render::mesh::{
    EnvSampler, GpuMesh, LightmapInputs, Mat4, MaterialSlots, MaterialViews, MeshLanes, MeshUpload, MeshVertex,
    ObjectProbe,
};
use hms_render::pipeline::{Formats, MaterialLayout, MeshRenderer};
use hms_render::texture;
use hms_render::texture::{TexelFormat, TexturePlan};
use hms_render::terrain::{TerrainMaterialParams, TerrainViews};
use hms_render::water::{WaterParams, WaterViews};
use hms_render::words::{zero4, Vec2, Vec3, Vec4};

const FORMATS: Formats = Formats { color: 7, depth: 40 };

fn b(x: f32) -> u32 {
    x.to_bits()
}

fn v4(x: f32, y: f32, z: f32, w: f32) -> Vec4 {
    Vec4 { x: b(x), y: b(y), z: b(z), w: b(w) }
}

fn floats(v: Vec4) -> [f32; 4] {
    [f32::from_bits(v.x), f32::from_bits(v.y), f32::from_bits(v.z), f32::from_bits(v.w)]
}

fn renderer() -> MeshRenderer {
    MeshRenderer::new(None, false, FORMATS)
}

fn lanes() -> MeshLanes {
    MeshLanes {
        scroll: Vec2 { x: b(0.1), y: b(0.2) },
        tile: Vec2 { x: b(3.0), y: b(4.0) },
        detail_xform: v4(1.0, 2.0, 3.0, 4.0),
        uv_density: b(0.5),
        spec_from_alpha: b(1.0),
        mat_pbr: Vec2 { x: b(0.7), y: b(-1.0) },
        mat_spec2: v4(5.0, 5.0, 5.0, 5.0),
        bump_xform: v4(6.0, 6.0, 6.0, 6.0),
        fine_xform: v4(7.0, 7.0, 7.0, 7.0),
        bump_detail_xform: v4(8.0, 8.0, 8.0, 8.0),
        env_ctl: v4(9.0, 9.0, 9.0, 9.0),
        is_object: false,
        matmodel: b(2.0),
        si_ctl: v4(10.0, 10.0, 10.0, 10.0),
        mattex_ctl: v4(11.0, 11.0, 11.0, 11.0),
        mattex_xform: v4(12.0, 12.0, 12.0, 12.0),
        xbump: v4(13.0, 13.0, 13.0, 13.0),
        xctl: v4(14.0, 14.0, 14.0, 14.0),
    }
}

fn no_views() -> MaterialViews {
    MaterialViews {
        base: None,
        emissive: None,
        detail: None,
        bump: None,
        bump_detail: None,
        alpha_test: None,
        material_texture: None,
        bump_detail2: None,
        bump_detail3: None,
        env_cube: None,
    }
}

fn at(x: f32, y: f32, z: f32) -> Mat4 {
    let mut m = mesh::identity();
    m.w_axis = v4(x, y, z, 1.0);
    m
}

fn origin() -> Vec3 {
    Vec3 { x: 0, y: 0, z: 0 }
}

fn upload(views: MaterialViews, lm: Option<LightmapInputs>, is_object: bool) -> MeshUpload {
    let mut p = MemProf::new();
    let mut l = lanes();
    l.is_object = is_object;
    let instances = vec![at(1.0, 2.0, 3.0), at(4.0, 5.0, 6.0)];
    renderer().upload_mesh_prebuilt(&mut p, 9, &instances, Some(&vec![zero4()]), views, l, lm, origin())
}

#[test]
fn records_are_as_long_as_their_attributes() {
    let v = layout::vertex_attributes();
    let i = layout::instance_attributes();
    assert_eq!((v.len(), i.len()), (7, 25));
    let words = |f: AttrFormat| match f {
        AttrFormat::Float => 1u32,
        AttrFormat::Float2 => 2,
        AttrFormat::Float3 => 3,
        AttrFormat::Float4 | AttrFormat::Uint4 => 4,
    };
    for (list, total) in [(&v, 21u32), (&i, 97)] {
        let mut at = 0;
        for a in list.iter() {
            assert_eq!(a.offset, at);
            at += 4 * words(a.format);
        }
        assert_eq!(at, 4 * total);
    }
    let mut used: Vec<u32> = v.iter().chain(i.iter()).map(|a| a.location).collect();
    used.sort();
    assert_eq!(used, (0..32).collect::<Vec<u32>>());
    assert_eq!((i[14].format, i[14].offset, i[14].location), (AttrFormat::Float, 224, 20));
    assert_eq!((i[24].format, i[24].offset, i[24].location), (AttrFormat::Uint4, 372, 31));
}

#[test]
fn bind_group_layouts() {
    let m = layout::material_layout();
    assert_eq!(m.len(), 17);
    assert_eq!(m[10].kind, BindKind::TextureCube);
    assert_eq!(m.iter().filter(|e| e.kind == BindKind::Sampler).map(|e| e.binding).collect::<Vec<u32>>(), vec![1, 7, 11]);
    let w = layout::water_layout();
    assert_eq!(w.iter().map(|e| e.binding).collect::<Vec<u32>>(), vec![0, 1, 2, 3, 4, 10, 11, 12, 13, 14, 15, 16, 17]);
    let t = layout::terrain_layout();
    assert_eq!(t.iter().filter(|e| e.kind == BindKind::Texture2d).count(), 21);
    assert_eq!(t[6].kind, BindKind::Uniform);
    let p = layout::probe_layout();
    assert_eq!(p[5].kind, BindKind::StorageRead);
    assert_eq!(p[7].kind, BindKind::StorageReadWrite);
    assert_eq!((p[9].kind, p[10].kind), (BindKind::TextureCube, BindKind::Sampler));
    assert!(m.iter().chain(&w).chain(&t).all(|e| e.stage == Stage::Fragment));
    assert!(p.iter().all(|e| e.stage == Stage::Compute));
}

#[test]
fn default_vertex_faces_up_in_white() {
    let v = MeshVertex::default();
    assert_eq!(v.normal, Vec3 { x: 0, y: 0, z: b(1.0) });
    assert_eq!(v.color, v4(1.0, 1.0, 1.0, 1.0));
    assert_eq!(v.tangent, zero4());
}

#[test]
fn geometry_bytes_are_the_records() {
    let mut v = MeshVertex::default();
    v.pos = Vec3 { x: 1, y: 2, z: 3 };
    v.uv2 = Vec2 { x: 7, y: 8 };
    v.tangent = Vec4 { x: 11, y: 12, z: 13, w: 14 };
    let words = mesh::vertex_words(&vec![MeshVertex::default(), v]);
    assert_eq!(words.len(), 42);
    assert_eq!(&words[21..24], &[1, 2, 3]);
    assert_eq!(&words[36..42], &[7, 8, 11, 12, 13, 14]);
    let (vb, ib) = mesh::make_geom_buffers(&vec![MeshVertex::default(), v], &vec![0, 1, 0]);
    assert_eq!((vb.len(), ib.len()), (168, 12));
    assert_eq!(&vb[84..88], &1u32.to_ne_bytes());
    assert_eq!(&ib[4..8], &1u32.to_ne_bytes());
}

#[test]
fn an_upload_packs_its_lanes() {
    let u = upload(no_views(), None, false);
    assert_eq!((u.mesh.index_count, u.mesh.instance_count), (9, 2));
    assert!(u.mesh.casts_shadow && !u.mesh.is_terrain && !u.mesh.h4_caster);
    let r = u.mesh.inst_raw[1];
    assert_eq!(floats(r.model.w_axis), [4.0, 5.0, 6.0, 1.0]);
    assert_eq!(floats(r.color), [1.0; 4]);
    assert_eq!(floats(u.mesh.inst_raw[0].color), [0.0; 4]);
    assert_eq!(floats(r.scroll), [0.1, 0.2, 3.0, 4.0]);
    assert_eq!(floats(r.aux), [0.5, 1.0, 0.7, -1.0]);
    assert_eq!(floats(r.lm), [0.0; 4]);
    assert_eq!(u.instances.len(), 2 * 97);
    let w = &u.instances[97..];
    assert_eq!(&w[12..16], &[b(4.0), b(5.0), b(6.0), b(1.0)]);
    assert_eq!(w[56], b(2.0));
    assert_eq!(w[57], b(10.0));
    assert_eq!(&w[73..77], &[b(14.0); 4]);
    assert_eq!(&w[77..97], &[0u32; 20]);
}

#[test]
fn objects_and_atlases_set_the_lightmap_lanes() {
    assert_eq!(floats(upload(no_views(), None, true).mesh.inst_raw[0].lm), [0.0, 0.0, 0.0, 2.0]);
    let lm = LightmapInputs { dm: 50, sdm: 51, sdm1: None, sdm2: Some(53), hdr: b(-3.0), k: b(0.5), mode: b(1.0) };
    let u = upload(no_views(), Some(lm), true);
    assert_eq!(floats(u.mesh.inst_raw[0].lm), [1.0, -3.0, 0.5, 1.0]);
    assert_eq!(u.mesh.lm_flag(), b(1.0));
}

fn tex(u: &MeshUpload, i: usize) -> Resource {
    u.material.bindings[i].resource
}

#[test]
fn missing_views_have_neutral_stand_ins() {
    let mut v = no_views();
    v.base = Some(7);
    let u = upload(v, None, false);
    assert_eq!(u.material.layout, MaterialLayout::Mesh);
    let want = [
        Resource::Texture(Tex::View(7)),
        Resource::Sampler(SamplerId::Mesh),
        Resource::Texture(Tex::Black),
        Resource::Texture(Tex::Grey),
        Resource::Texture(Tex::Flat),
        Resource::Texture(Tex::Grey),
        Resource::Texture(Tex::Black),
        Resource::Sampler(SamplerId::Lightmap),
        Resource::Texture(Tex::Black),
        Resource::Texture(Tex::Black),
        Resource::Cube(Cube::Captured),
        Resource::Sampler(SamplerId::Env),
        Resource::Texture(Tex::Flat),
        Resource::Texture(Tex::View(7)),
        Resource::Texture(Tex::Grey),
        Resource::Texture(Tex::Flat),
        Resource::Texture(Tex::Flat),
    ];
    for (i, r) in want.iter().enumerate() {
        assert_eq!(u.material.bindings[i], Binding { binding: i as u32, resource: *r });
    }
    // without a base texture nothing else is used
    let mut v = no_views();
    v.emissive = Some(3);
    let lm = LightmapInputs { dm: 50, sdm: 51, sdm1: None, sdm2: None, hdr: 0, k: 0, mode: 0 };
    let u = upload(v, Some(lm), false);
    assert_eq!(tex(&u, 0), Resource::Texture(Tex::Own(0)));
    assert_eq!(tex(&u, 2), Resource::Texture(Tex::Own(1)));
    assert_eq!(tex(&u, 5), Resource::Texture(Tex::Grey));
}

#[test]
fn given_views_are_bound() {
    let v = MaterialViews {
        base: Some(1),
        emissive: Some(2),
        detail: Some(3),
        bump: Some(4),
        bump_detail: Some(5),
        alpha_test: Some(6),
        material_texture: Some(7),
        bump_detail2: Some(8),
        bump_detail3: Some(9),
        env_cube: Some(10),
    };
    let lm = LightmapInputs { dm: 50, sdm: 51, sdm1: None, sdm2: Some(53), hdr: 0, k: 0, mode: 0 };
    let u = upload(v, Some(lm), false);
    assert_eq!(tex(&u, 2), Resource::Texture(Tex::View(2)));
    assert_eq!(tex(&u, 5), Resource::Texture(Tex::View(50)));
    assert_eq!(tex(&u, 6), Resource::Texture(Tex::View(51)));
    assert_eq!(tex(&u, 8), Resource::Texture(Tex::View(51)));
    assert_eq!(tex(&u, 9), Resource::Texture(Tex::View(53)));
    assert_eq!(tex(&u, 10), Resource::Cube(Cube::View(10)));
    assert_eq!(tex(&u, 13), Resource::Texture(Tex::View(6)));
    assert_eq!(tex(&u, 16), Resource::Texture(Tex::View(9)));
}

fn texel(p: &TexturePlan) -> &[u8] {
    assert_eq!((p.width, p.height, p.format, p.levels.len()), (1, 1, TexelFormat::Rgba8Unorm, 1));
    &p.levels[0].data
}

#[test]
fn the_first_upload_brings_the_stand_ins() {
    let mut p = MemProf::new();
    let mut r = renderer();
    assert_eq!(r.env_cube_view(), None);
    assert_eq!(r.env_cube_texture(), None);
    let mut views = no_views();
    views.base = Some(4);
    let u = r.upload_mesh_prebuilt(&mut p, 3, &vec![], None, views, lanes(), None, origin());
    let f = u.fallbacks.unwrap();
    assert_eq!(texel(&f.black), [0, 0, 0, 255]);
    assert_eq!(texel(&f.grey), [128, 128, 128, 255]);
    assert_eq!(texel(&f.flat), [128, 128, 255, 255]);
    assert_eq!(f.cube, texture::build_env_cube());
    assert!(u.material.textures.is_empty());
    assert_eq!(r.env_cube_view(), Some((Cube::Captured, SamplerId::Env)));
    assert_eq!(r.env_cube_texture(), Some(f.cube));
    assert_eq!(memprof::report(&p), (15, 0, 0, 3, 1));
    let again = r.upload_mesh_prebuilt(&mut p, 3, &vec![], None, views, lanes(), None, origin());
    assert!(again.fallbacks.is_none());
    assert_eq!(memprof::report(&p), (15, 0, 0, 3, 2));
    assert_eq!(memprof::categories(&p), vec![("buf:mesh-inst", 2, 0), ("tex:rgba-mips", 3, 15)]);
}

#[test]
fn every_neutral_material_has_its_own_textures() {
    let mut p = MemProf::new();
    let mut r = renderer();
    let (m, f) = r.default_material(&mut p);
    assert!(f.is_some());
    let texels: Vec<&[u8]> = m.textures.iter().map(texel).collect();
    assert_eq!(texels, vec![[255u8, 255, 255, 255], [0, 0, 0, 255], [128, 128, 128, 255], [128, 128, 255, 255]]);
    assert_eq!(memprof::report(&p), (35, 0, 0, 7, 0));
    let (m, f) = r.default_material(&mut p);
    assert!(f.is_none() && m.textures.len() == 4);
    assert_eq!(memprof::report(&p), (55, 0, 0, 11, 0));
    assert_eq!(memprof::categories(&p), vec![("tex:rgba-mips", 11, 55)]);
    assert_eq!(m.bindings[13].resource, Resource::Texture(Tex::Own(0)));
    assert_eq!(m.bindings[5].resource, Resource::Texture(Tex::Grey));
}

#[test]
fn a_material_binds_the_sampler_it_is_given() {
    let mut s = MaterialSlots {
        base: Tex::View(1),
        emissive: Tex::Black,
        detail: Tex::Grey,
        bump: Tex::Flat,
        dm: Tex::Grey,
        sdm: Tex::Black,
        sdm1: Tex::Black,
        sdm2: Tex::Black,
        env: Cube::View(2),
        env_sampler: EnvSampler::Given(6),
        bump_detail: Tex::Flat,
        alpha_test: Tex::View(1),
        material_texture: Tex::Grey,
        bump_detail2: Tex::Flat,
        bump_detail3: Tex::Flat,
    };
    let m = renderer().material_from_view(s);
    assert_eq!(m.bindings[11].resource, Resource::GivenSampler(6));
    assert_eq!(m.bindings[10].resource, Resource::Cube(Cube::View(2)));
    s.env_sampler = EnvSampler::Captured;
    assert_eq!(renderer().material_from_view(s).bindings[11].resource, Resource::Sampler(SamplerId::Env));
}

#[test]
fn uploads_are_accounted() {
    let mut p = MemProf::new();
    let mut r = renderer();
    let verts = vec![MeshVertex::default(); 3];
    let u = r.upload_mesh(&mut p, &verts, &vec![0, 1, 2], &vec![], None, no_views(), lanes(), None, origin());
    assert_eq!((u.mesh.index_count, u.mesh.instance_count, u.mesh.inst_raw.len()), (3, 1, 0));
    assert!(u.fallbacks.is_some() && u.material.textures.len() == 4);
    r.upload_mesh(&mut p, &verts, &vec![0, 1, 2], &vec![at(0.0, 0.0, 0.0); 2], None, no_views(), lanes(), None, origin());
    assert_eq!(memprof::report(&p), (5 * 11, 0, 2 * (3 * 84 + 12) + 2 * 388, 11, 2));
    assert_eq!(
        memprof::categories(&p),
        vec![("buf:mesh-inst", 2, 776), ("buf:mesh-vb/ib", 2, 528), ("tex:rgba-mips", 11, 55)]
    );
}

fn three() -> GpuMesh {
    let mut p = MemProf::new();
    renderer().upload_mesh_prebuilt(&mut p, 3, &vec![mesh::identity(); 3], None, no_views(), lanes(), None, origin()).mesh
}

#[test]
fn lanes_can_be_patched_later() {
    let mut m = three();
    let probe = ObjectProbe { direction: v4(1.0, 0.0, 0.0, 2.0), color: v4(3.0, 3.0, 3.0, 3.0), light: Vec4 { x: 1, y: 2, z: 3, w: 4 } };
    assert!(m.set_instance_probes(&vec![probe; 2]));
    assert_eq!(m.inst_raw[1].obj_probe0, probe.direction);
    assert_eq!(m.inst_raw[1].obj_probe1, probe.color);
    assert_eq!(m.inst_raw[1].obj_light, probe.light);
    assert_eq!(m.inst_raw[2].obj_light, zero4());
    // more probes than instances
    assert!(m.set_instance_probes(&vec![probe; 9]));
    assert_eq!(m.inst_raw.len(), 3);

    assert!(m.set_instance_colors(&vec![v4(0.5, 0.5, 0.5, 0.5)]));
    assert_eq!(floats(m.inst_raw[0].color), [0.5; 4]);
    assert_eq!(floats(m.inst_raw[1].color), [1.0; 4]);
    assert!(m.set_instance_obj_light(&vec![zero4()]));
    assert_eq!(m.inst_raw[0].obj_light, zero4());
    assert_eq!(m.inst_raw[1].obj_light, probe.light);

    assert!(m.set_spec_tints(v4(1.0, 1.0, 0.0, 1.0), v4(0.0, 1.0, 1.0, 1.0)));
    assert!(m.inst_raw.iter().all(|r| r.spec_rgb == v4(1.0, 1.0, 0.0, 1.0) && r.fres_rgb == v4(0.0, 1.0, 1.0, 1.0)));
    assert!(m.set_h4_lanes(zero4(), zero4(), v4(7.0, 7.0, 7.0, 7.0), v4(8.0, 8.0, 8.0, 8.0)));
    assert!(m.inst_raw.iter().all(|r| r.spec_rgb == zero4() && r.obj_probe1 == v4(8.0, 8.0, 8.0, 8.0)));

    m.set_deco_budget(Vec3 { x: 1, y: 2, z: 3 }, 40);
    assert_eq!((m.centroid(), m.deco_weight), (Vec3 { x: 1, y: 2, z: 3 }, 40));
    m.set_centroid(origin());
    assert_eq!(m.centroid(), origin());
    assert_eq!(m.blend_mode(), 0);
    m.set_blend_mode(3);
    assert_eq!(m.blend_mode(), 3);
}

#[test]
fn meshes_without_a_stream_stay_as_they_are() {
    let mut m = three();
    m.inst_raw.clear();
    assert!(!m.set_instance_colors(&vec![zero4()]));
    assert!(!m.set_spec_tints(zero4(), zero4()));
    assert!(!m.set_h4_lanes(zero4(), zero4(), zero4(), zero4()));
    assert!(!m.set_instance_obj_light(&vec![zero4()]));
    assert!(!m.set_instance_probes(&vec![]));
    assert_eq!(f32::from_bits(m.lm_flag()), -1.0);
}

fn t2(x: f32, y: f32) -> Vec2 {
    Vec2 { x: b(x), y: b(y) }
}

fn terrain_params() -> TerrainMaterialParams {
    TerrainMaterialParams {
        base_tile: [t2(2.0, 3.0), t2(4.0, 5.0), t2(6.0, 7.0), t2(8.0, 9.0)],
        base_offset: [t2(0.1, 0.2); 4],
        detail_tile: [t2(1.0, 1.0), t2(1.0, 2.0), t2(1.00005, 0.99995), t2(20.0, 21.0)],
        detail_offset: [t2(0.3, 0.4); 4],
        blend_xform: v4(1.0, 2.0, 3.0, 4.0),
        global_tint: v4(0.5, 0.6, 0.7, 99.0),
        active: v4(1.0, 1.0, 0.0, 0.0),
        detail_present: v4(0.0, 1.0, 0.0, 1.0),
        bump_tile: [t2(30.0, 31.0); 4],
        bump_offset: [t2(32.0, 33.0); 4],
        bump_present: v4(0.0, 0.0, 1.0, 1.0),
        detail_bump_tile: [t2(1.0, 1.0); 4],
        detail_bump_offset: [t2(0.5, 0.6); 4],
        detail_bump_present: v4(1.0, 0.0, 0.0, 1.0),
        uv_density: b(0.25),
        dbb_mode: b(1.0),
        dbb_slope: b(0.01),
        dbb_offset: b(-0.02),
        blend_target: [v4(1.0, 0.0, 0.0, 0.0), v4(2.0, 0.0, 0.0, 0.0), v4(3.0, 0.0, 0.0, 0.0), v4(4.0, 0.0, 0.0, 0.0)],
        blend_max: v4(0.1, 0.2, 0.3, 0.4),
        base_curve: v4(2.2, 1.0, 2.2, 1.0),
        detail_curve: v4(1.0, 2.2, 1.0, 2.2),
        bump_snorm: v4(1.0, 0.0, 1.0, 0.0),
        detail_bump_snorm: v4(0.0, 1.0, 0.0, 1.0),
    }
}

#[test]
fn terrain_uniform_has_thirty_two_vectors() {
    let mut p = MemProf::new();
    let views = TerrainViews { base: [1, 2, 3, 4], detail: [5, 6, 7, 8], blend: 9, bump: [10, 11, 12, 13], detail_bump: [14, 15, 16, 17] };
    let u = renderer().upload_terrain_mesh(&mut p, &vec![MeshVertex::default(); 4], &vec![0, 1, 2, 0, 2, 3], &views, &terrain_params(), None, at(1.0, 2.0, 3.0));
    assert!(u.mesh.is_terrain && u.mesh.inst_raw.is_empty());
    assert_eq!((u.mesh.index_count, u.mesh.instance_count), (6, 1));
    assert_eq!(u.material.layout, MaterialLayout::Terrain);
    assert_eq!(u.mesh.centroid(), Vec3 { x: b(1.0), y: b(2.0), z: b(3.0) });
    assert_eq!(u.material.uniform.len(), 128);
    let v = |i: usize| -> Vec<f32> { u.material.uniform[4 * i..4 * i + 4].iter().map(|w| f32::from_bits(*w)).collect() };
    assert_eq!(v(0), [2.0, 3.0, 0.1, 0.2]);
    assert_eq!(v(3), [8.0, 9.0, 0.1, 0.2]);
    // unresolved fine scales are eight times the base
    assert_eq!(v(4), [16.0, 24.0, 0.3, 0.4]);
    assert_eq!(v(5), [1.0, 2.0, 0.3, 0.4]);
    assert_eq!(v(6), [48.0, 56.0, 0.3, 0.4]);
    assert_eq!(v(7), [20.0, 21.0, 0.3, 0.4]);
    assert_eq!(v(8), [1.0, 2.0, 3.0, 4.0]);
    assert_eq!(v(9), [0.5, 0.6, 0.7, 0.25]);
    assert_eq!(v(10), [1.0, 1.0, 0.0, 0.0]);
    assert_eq!(v(11), [0.0, 1.0, 0.0, 1.0]);
    assert_eq!(v(12), [30.0, 31.0, 32.0, 33.0]);
    assert_eq!(v(16), [0.0, 0.0, 1.0, 1.0]);
    assert_eq!(v(17), [1.0, 0.01, -0.02, 0.0]);
    assert_eq!(v(20), [3.0, 0.0, 0.0, 0.0]);
    assert_eq!(v(22), [0.1, 0.2, 0.3, 0.4]);
    assert_eq!(v(23), [16.0, 24.0, 0.5, 0.6]);
    assert_eq!(v(26), [64.0, 72.0, 0.5, 0.6]);
    assert_eq!(v(27), [1.0, 0.0, 0.0, 1.0]);
    assert_eq!(v(28), [2.2, 1.0, 2.2, 1.0]);
    assert_eq!(v(31), [0.0, 1.0, 0.0, 1.0]);
    // placed once, unlit by an atlas
    assert_eq!(&u.instances[12..16], &[b(1.0), b(2.0), b(3.0), b(1.0)]);
    assert_eq!(&u.instances[32..36], &[0; 4]);
    assert_eq!(tex(&u, 4), Resource::Texture(Tex::View(9)));
    assert_eq!(tex(&u, 6), Resource::Uniform);
    assert_eq!(tex(&u, 18), Resource::Texture(Tex::View(17)));
    assert_eq!(tex(&u, 19), Resource::Texture(Tex::Grey));
    assert_eq!(memprof::report(&p), (15, 0, 0, 3, 0));
    assert_eq!(memprof::categories(&p), vec![("buf:terrain-vb/ib", 1, 4 * 84 + 24), ("tex:rgba-mips", 3, 15)]);
}

#[test]
fn water_defaults_and_fallbacks() {
    let d = WaterParams::default();
    assert_eq!(floats(d.p0), [1.0, 8.0, 4.0, 0.8]);
    assert_eq!(floats(d.p1), [1.0, 1.0, 0.1, 0.07]);
    assert_eq!(floats(d.deep), [0.015, 0.05, 0.08, 0.0]);
    assert_eq!(floats(d.wave), [1.0; 4]);
    assert_eq!(floats(d.edge), [30.0, 1.0, 0.0, 0.7]);
    assert_eq!(floats(d.diff), [0.0, 0.02, 0.04, 0.2]);
    assert_eq!(floats(d.env), [0.0, 256.0, 0.0, 0.0]);
    assert_eq!(floats(d.foam), [1.0, 1.0, 0.5, 0.0]);
    assert_eq!(floats(d.detail), [1.0, 1.0, 1.0, 0.0]);
    assert_eq!(floats(d.wcxf), [1.0, 1.0, 0.0, 0.0]);
    assert_eq!(floats(d.cat), [1.0, 1.0, 1.0, 0.0]);
    assert_eq!((d.xform2, d.body, d.anim, d.scroll), (zero4(), zero4(), zero4(), zero4()));

    let mut p = MemProf::new();
    let views = WaterViews { watercolor: None, slope: Some(2), env_cube: None, foam: None, global_shape: Some(4) };
    let lm = LightmapInputs { dm: 50, sdm: 51, sdm1: Some(52), sdm2: None, hdr: b(2.0), k: b(3.0), mode: 0 };
    let u = renderer().upload_water_mesh(&mut p, &vec![MeshVertex::default(); 2], &vec![0, 1, 0], views, &d, Some(lm));
    assert!(!u.mesh.is_terrain);
    assert_eq!(u.material.layout, MaterialLayout::Water);
    assert_eq!(u.mesh.centroid(), origin());
    assert_eq!(u.material.uniform.len(), 60);
    assert_eq!(&u.material.uniform[0..4], &[b(1.0), b(8.0), b(4.0), b(0.8)]);
    assert_eq!(&u.material.uniform[56..60], &[b(1.0), b(1.0), b(1.0), 0]);
    assert_eq!(tex(&u, 0), Resource::Texture(Tex::Blank));
    assert_eq!(tex(&u, 3), Resource::Texture(Tex::View(2)));
    assert_eq!(u.material.bindings[5], Binding { binding: 10, resource: Resource::Cube(Cube::Captured) });
    assert_eq!(u.material.bindings[7], Binding { binding: 12, resource: Resource::Texture(Tex::View(4)) });
    assert_eq!(u.material.bindings[11], Binding { binding: 16, resource: Resource::Texture(Tex::View(52)) });
    assert_eq!(u.material.bindings[12], Binding { binding: 17, resource: Resource::Texture(Tex::View(51)) });
    assert_eq!(&u.instances[0..4], &[b(1.0), 0, 0, 0]);
    assert_eq!(&u.instances[32..36], &[b(1.0), b(2.0), b(3.0), 0]);
    assert_eq!(memprof::categories(&p), vec![("buf:water-vb/ib", 1, 2 * 84 + 12), ("tex:rgba-mips", 3, 15)]);
}

#[test]
fn the_test_cube_is_a_unit_cube() {
    let (verts, indices) = cube::test_cube();
    assert_eq!((verts.len(), indices.len()), (24, 36));
    let f = |v: Vec3| [f32::from_bits(v.x), f32::from_bits(v.y), f32::from_bits(v.z)];
    for (i, v) in verts.iter().enumerate() {
        let (p, n) = (f(v.pos), f(v.normal));
        for c in 0..3 {
            assert_eq!(p[c].abs(), 0.5);
            if n[c] != 0.0 {
                assert_eq!(p[c], 0.5 * n[c], "vertex {}", i);
            }
        }
        assert_eq!(n.iter().map(|x| x.abs()).sum::<f32>(), 1.0);
    }
    // each triangle faces outwards
    for t in indices.chunks(3) {
        let (a, b, c) = (f(verts[t[0] as usize].pos), f(verts[t[1] as usize].pos), f(verts[t[2] as usize].pos));
        let u = [b[0] - a[0], b[1] - a[1], b[2] - a[2]];
        let v = [c[0] - a[0], c[1] - a[1], c[2] - a[2]];
        let n = [u[1] * v[2] - u[2] * v[1], u[2] * v[0] - u[0] * v[2], u[0] * v[1] - u[1] * v[0]];
        assert_eq!(n, f(verts[t[0] as usize].normal));
    }
    assert_eq!(&indices[0..6], &[0, 1, 2, 0, 2, 3]);
    assert_eq!((verts[0].uv.x, verts[0].uv.y), (0, b(1.0)));
    assert_eq!((verts[2].uv.x, verts[2].uv.y), (b(1.0), 0));
}
