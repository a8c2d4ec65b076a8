use hms_render::draw;
use hms_render::draw::{Draw, TransparentKind};
use hms_render::layout::SamplerId;
use hms_render::mesh;
use hms_render::mesh::{GpuMesh, InstanceRaw};
use hms_render::pipeline;
use hms_render::pipeline::{
    BlendComponent, BlendFactor, BlendMode, FillKind, Formats, MaterialLayout, MeshRenderer, PipelineId, ShaderId, ShaderPart,
};
use hms_render::words::{zero4, Vec3, Vec4};

const FORMATS: Formats = Formats { color: 7, depth: 40 };

fn b(x: f32) -> u32 {
    x.to_bits()
}

fn instance(x: f32) -> InstanceRaw {
    let mut model = mesh::identity();
    model.w_axis = Vec4 { x: b(x), y: 0, z: 0, w: b(1.0) };
    InstanceRaw {
        model,
        color: zero4(),
        scroll: zero4(),
        detail_xform: zero4(),
        aux: zero4(),
        lm: zero4(),
        spec2: zero4(),
        bump_xform: zero4(),
        fine_xform: zero4(),
        bump_detail_xform: zero4(),
        env_ctl: zero4(),
        matmodel: 0,
        si_ctl: zero4(),
        mattex: zero4(),
        mattex_xform: zero4(),
        xbump: zero4(),
        xctl: zero4(),
        obj_probe0: zero4(),
        obj_probe1: zero4(),
        spec_rgb: zero4(),
        fres_rgb: zero4(),
        obj_light: zero4(),
    }
}

fn plain(count: u32) -> GpuMesh {
    GpuMesh {
        is_terrain: false,
        casts_shadow: true,
        h4_caster: false,
        inst_raw: vec![],
        index_count: 3,
        instance_count: count,
        centroid: Vec3 { x: b(9.0), y: 0, z: 0 },
        deco_weight: 0,
        blend_mode: 0,
    }
}

fn renderer() -> MeshRenderer {
    MeshRenderer::new(None, false, FORMATS)
}

fn meshes_of(d: &[Draw]) -> Vec<usize> {
    d.iter().map(|x| x.mesh).collect()
}

#[test]
fn unsorted_passes() {
    let (a, mut t, c) = (plain(1), plain(2), plain(3));
    t.is_terrain = true;
    let list = vec![&a, &t, &c];
    let r = renderer();
    assert_eq!(
        r.draw(&list),
        vec![
            Draw { pipeline: PipelineId::Mesh, list: 0, mesh: 0, first: 0, count: 1 },
            Draw { pipeline: PipelineId::Mesh, list: 0, mesh: 2, first: 0, count: 3 },
        ]
    );
    assert_eq!(r.draw_terrain(&list), vec![Draw { pipeline: PipelineId::Terrain, list: 0, mesh: 1, first: 0, count: 2 }]);
    assert_eq!(meshes_of(&r.draw_alphatest(&list)), vec![0, 1, 2]);
    assert!(r.draw_additive(&list).iter().all(|d| d.pipeline == PipelineId::Additive));
    assert!(r.draw_water(&list).iter().all(|d| d.pipeline == PipelineId::Water));
    assert_eq!(r.draw(&vec![]), vec![]);
}

#[test]
fn shadow_passes_take_casters() {
    let (a, mut off, mut flagged, mut both) = (plain(1), plain(1), plain(1), plain(1));
    off.casts_shadow = false;
    flagged.h4_caster = true;
    both.h4_caster = true;
    both.casts_shadow = false;
    let r = renderer();
    let all = vec![vec![&a, &off], vec![], vec![&flagged]];
    let d = r.draw_shadow(&all);
    assert_eq!(d.iter().map(|x| (x.list, x.mesh)).collect::<Vec<_>>(), vec![(0, 0), (2, 0)]);
    let d = r.draw_shadow_h4(&vec![vec![&off, &a]], &vec![vec![&a, &flagged, &both]], false);
    assert_eq!(d.iter().map(|x| (x.list, x.mesh)).collect::<Vec<_>>(), vec![(0, 1), (1, 1)]);
    let d = r.draw_shadow_h4(&vec![], &vec![vec![&a, &flagged, &both]], true);
    assert_eq!(d.iter().map(|x| (x.list, x.mesh)).collect::<Vec<_>>(), vec![(0, 0), (0, 1)]);
    assert!(d.iter().all(|x| x.pipeline == PipelineId::ShadowH4));
}

#[test]
fn decorators_are_cut_by_their_budget() {
    let mut groups: Vec<GpuMesh> = (0..4).map(|_| plain(1)).collect();
    groups[0].deco_weight = 10;
    groups[1].deco_weight = 0;
    groups[2].deco_weight = 5;
    groups[3].deco_weight = u32::MAX;
    let list: Vec<&GpuMesh> = groups.iter().collect();
    let d2 = vec![b(4.0), b(1.0), b(1.0), b(9.0)];
    let r = renderer();
    assert_eq!(meshes_of(&r.draw_foliage(&list, &d2, 0)), vec![1, 2, 0, 3]);
    assert_eq!(meshes_of(&r.draw_foliage(&list, &d2, 1)), vec![1, 2]);
    assert_eq!(meshes_of(&r.draw_foliage(&list, &d2, 6)), vec![1, 2, 0]);
    assert_eq!(meshes_of(&r.draw_foliage(&list, &d2, 7)), vec![1, 2, 0]);
    assert_eq!(meshes_of(&r.draw_foliage(&list, &d2, 5)), vec![1, 2]);
    assert_eq!(meshes_of(&r.draw_foliage(&list, &d2, u32::MAX)), vec![1, 2, 0, 3]);
    // a mesh without decorators is drawn however far it is and whatever was spent before
    let far = vec![b(4.0), b(100.0), b(1.0), b(9.0)];
    assert_eq!(meshes_of(&r.draw_foliage(&list, &far, 1)), vec![2, 1]);
    assert_eq!(meshes_of(&r.draw_foliage(&list, &far, 16)), vec![2, 0, 3, 1]);
}

#[test]
fn particles_go_back_to_front_by_mode() {
    let mut batches: Vec<GpuMesh> = (0..6).map(|_| plain(1)).collect();
    for (i, m) in batches.iter_mut().enumerate() {
        m.blend_mode = i as u8;
    }
    let list: Vec<&GpuMesh> = batches.iter().collect();
    let d2: Vec<u32> = [1.0f32, 6.0, 3.0, 3.0, 0.5, 2.0].iter().map(|x| b(*x)).collect();
    let d = renderer().draw_particles(&list, &d2);
    assert_eq!(meshes_of(&d), vec![1, 2, 3, 5, 0, 4]);
    let pipes: Vec<PipelineId> = d.iter().map(|x| x.pipeline).collect();
    assert_eq!(
        pipes,
        vec![
            PipelineId::ParticlePremul,
            PipelineId::ParticleMultiply,
            PipelineId::ParticleAlpha,
            PipelineId::ParticleAlpha,
            PipelineId::ParticleAlpha,
            PipelineId::ParticleAdd,
        ]
    );
}

#[test]
fn transparent_lists_are_merged() {
    let mut panes = plain(2);
    panes.inst_raw = vec![instance(1.0), instance(5.0)];
    panes.blend_mode = 2;
    let marker = plain(1);
    let lost = plain(3); // several instances, but no stream to split
    let lists = vec![
        (vec![&panes, &lost], TransparentKind::Blend),
        (vec![&marker], TransparentKind::HoloSolid),
        (vec![], TransparentKind::Additive),
    ];
    let r = renderer();
    let items = r.transparent_items(&lists);
    let got: Vec<(usize, usize, Option<u32>, f32)> = items.iter().map(|i| (i.list, i.mesh, i.instance, f32::from_bits(i.at.x))).collect();
    assert_eq!(got, vec![(0, 0, Some(0), 1.0), (0, 0, Some(1), 5.0), (0, 1, None, 9.0), (1, 0, None, 9.0)]);
    // the marker stands between the two panes
    let d2 = vec![b(1.0), b(25.0), b(81.0), b(9.0)];
    let d = r.draw_transparent_sorted(&lists, &items, &d2);
    assert_eq!(
        d,
        vec![
            Draw { pipeline: PipelineId::Blend, list: 0, mesh: 1, first: 0, count: 3 },
            Draw { pipeline: PipelineId::BlendMultiply, list: 0, mesh: 0, first: 1, count: 1 },
            Draw { pipeline: PipelineId::HoloSolid, list: 1, mesh: 0, first: 0, count: 1 },
            Draw { pipeline: PipelineId::BlendMultiply, list: 0, mesh: 0, first: 0, count: 1 },
        ]
    );
    assert_eq!(draw::pipeline_switches(&d), vec![true, true, true, true]);
    let same = vec![d[0], d[0], d[1]];
    assert_eq!(draw::pipeline_switches(&same), vec![true, false, true]);
}

#[test]
fn blend_modes_route_transparents() {
    let mut ms: Vec<GpuMesh> = (0..5).map(|_| plain(1)).collect();
    for (i, m) in ms.iter_mut().enumerate() {
        m.blend_mode = i as u8;
    }
    let r = renderer();
    for (kind, want) in [
        (
            TransparentKind::Blend,
            [PipelineId::Blend, PipelineId::BlendPremul, PipelineId::BlendMultiply, PipelineId::BlendDoubleMultiply, PipelineId::Blend],
        ),
        (TransparentKind::Additive, [PipelineId::Additive; 5]),
        (TransparentKind::HoloSolid, [PipelineId::HoloSolid; 5]),
    ] {
        let lists = vec![(ms.iter().collect::<Vec<&GpuMesh>>(), kind)];
        let items = r.transparent_items(&lists);
        let d = r.draw_transparent_sorted(&lists, &items, &vec![0; 5]);
        assert_eq!(d.iter().map(|x| x.pipeline).collect::<Vec<_>>(), want.to_vec());
    }
}

#[test]
fn sky_draws_opaque_segments_first() {
    let segs: Vec<GpuMesh> = (0..5).map(|_| plain(1)).collect();
    let list: Vec<&GpuMesh> = segs.iter().collect();
    let blends = vec![4u8, 0, 6, 4, 0];
    let radii: Vec<u32> = [10.0f32, 1.0, 30.0, 10.0, 2.0].iter().map(|x| b(*x)).collect();
    let d = renderer().draw_sky(&list, &blends, &radii);
    assert_eq!(meshes_of(&d), vec![4, 1, 2, 0, 3]);
    assert_eq!(d[2].pipeline, PipelineId::SkyPremul);
    let legacy = MeshRenderer::new(Some("1"), false, FORMATS);
    assert_eq!(legacy.draw_sky(&list, &blends, &radii)[2].pipeline, PipelineId::SkyAlpha);
    let want = [
        PipelineId::SkyOpaque,
        PipelineId::SkyBlend,
        PipelineId::SkyMultiply,
        PipelineId::SkyMultiply,
        PipelineId::SkyAlpha,
        PipelineId::SkyBlend,
        PipelineId::SkyPremul,
        PipelineId::SkyBlend,
        PipelineId::SkyPremul,
        PipelineId::SkyBlend,
        PipelineId::SkyOpaque,
    ];
    for (i, p) in want.iter().enumerate() {
        assert_eq!(renderer().draw_sky(&vec![&segs[0]], &vec![i as u8], &vec![0])[0].pipeline, *p, "{}", i);
    }
}

#[test]
fn decals_go_by_bucket() {
    let ms: Vec<GpuMesh> = (0..8).map(|_| plain(1)).collect();
    let list: Vec<&GpuMesh> = ms.iter().collect();
    let d = renderer().draw_decals(&list, &vec![2, 0, 6, 1, 0, 5, 4, 3]);
    assert_eq!(meshes_of(&d), vec![1, 4, 3, 0, 7, 6, 5, 2]);
    let pipes: Vec<PipelineId> = d.iter().map(|x| x.pipeline).collect();
    assert_eq!(
        pipes,
        vec![
            PipelineId::DecalAlpha,
            PipelineId::DecalAlpha,
            PipelineId::DecalAdditive,
            PipelineId::DecalMultiply,
            PipelineId::DecalPremul,
            PipelineId::DecalInvAlpha,
            PipelineId::DecalVector,
            PipelineId::DecalDoubleMultiply,
        ]
    );
    assert_eq!(renderer().draw_decals(&vec![&ms[0]], &vec![9])[0].pipeline, PipelineId::DecalAlpha);
}

#[test]
fn blend_states_are_the_fixed_function_ones() {
    let c = |m| pipeline::blend_state(m).color;
    let f = |src, dst| BlendComponent { src, dst };
    assert_eq!(c(BlendMode::Alpha), f(BlendFactor::SrcAlpha, BlendFactor::OneMinusSrcAlpha));
    assert_eq!(c(BlendMode::Premultiplied), f(BlendFactor::One, BlendFactor::OneMinusSrcAlpha));
    assert_eq!(c(BlendMode::Additive), f(BlendFactor::One, BlendFactor::One));
    assert_eq!(c(BlendMode::AlphaAdditive), f(BlendFactor::SrcAlpha, BlendFactor::One));
    assert_eq!(c(BlendMode::Multiply), f(BlendFactor::Zero, BlendFactor::Src));
    assert_eq!(c(BlendMode::DoubleMultiply), f(BlendFactor::Dst, BlendFactor::Src));
    assert_eq!(c(BlendMode::InverseAlpha), f(BlendFactor::OneMinusSrcAlpha, BlendFactor::SrcAlpha));
    assert_eq!(pipeline::blend_state(BlendMode::Additive).alpha, f(BlendFactor::One, BlendFactor::Zero));
    assert_eq!(pipeline::blend_state(BlendMode::Alpha).alpha, f(BlendFactor::One, BlendFactor::OneMinusSrcAlpha));
}

#[test]
fn the_renderer_describes_every_pipeline() {
    let r = renderer();
    assert_eq!(r.pipelines.len(), 29);
    let get = |id| r.pipelines[pipeline::slot(id)];
    let mesh = get(PipelineId::Mesh);
    assert_eq!((mesh.vs, mesh.fs, mesh.depth_write, mesh.blend), ("vs", Some("fs"), true, BlendMode::Opaque));
    let decal = get(PipelineId::DecalVector);
    assert_eq!((decal.vs, decal.fs, decal.depth_write, decal.blend), ("vs_decal", Some("fs_decal_vector"), false, BlendMode::Alpha));
    let shadow = get(PipelineId::Shadow);
    assert_eq!((shadow.fs, shadow.cull_front, shadow.bias_constant, f32::from_bits(shadow.bias_slope)), (None, false, 2, 2.0));
    let h4 = get(PipelineId::ShadowH4);
    assert_eq!((h4.cull_front, h4.bias_constant, h4.bias_slope, h4.layout), (true, 0, 0, MaterialLayout::Shadow));
    let water = get(PipelineId::Water);
    assert_eq!((water.shader, water.layout, water.blend, water.depth_write), (ShaderId::Water, MaterialLayout::Water, BlendMode::Premultiplied, false));
    let sky = get(PipelineId::SkyOpaque);
    assert_eq!((sky.shader, sky.depth_write, sky.depth_always), (ShaderId::Sky, true, false));
    let old = MeshRenderer::new(Some("yes"), true, FORMATS);
    let sky = old.pipelines[pipeline::slot(PipelineId::SkyOpaque)];
    assert_eq!((sky.shader, sky.depth_write, sky.depth_always), (ShaderId::SkyLegacy, false, true));
    assert!(!old.lm_sampler.linear && r.lm_sampler.linear);
    assert_eq!((r.sampler.anisotropy, r.env_sampler.repeat, r.lm_sampler.top_level), (16, false, true));
    assert_eq!(pipeline::sampler_desc(SamplerId::Mesh, true), r.sampler);
    assert_eq!((water.vertex_attrs, water.instance_attrs, mesh.vertex_attrs, mesh.instance_attrs), (6, 9, 7, 25));
    assert_eq!((mesh.color, decal.color, water.color, sky.color), (Some(7), Some(7), Some(7), Some(7)));
    assert_eq!((shadow.color, h4.color), (None, None));
    assert!(r.pipelines.iter().all(|d| d.depth == 40));
    assert!(r.pipelines.iter().all(|d| d.blend == BlendMode::Opaque || !d.depth_write));
}

#[test]
fn shader_sources_are_put_together() {
    assert_eq!(
        pipeline::shader_parts(ShaderId::Mesh),
        vec![ShaderPart::Fog, ShaderPart::ShadowSample, ShaderPart::GiFragment, ShaderPart::GiShared, ShaderPart::Mesh, ShaderPart::H4Mesh]
    );
    assert_eq!(pipeline::shader_parts(ShaderId::Water), vec![ShaderPart::Fog, ShaderPart::GiFragment, ShaderPart::GiShared, ShaderPart::Water]);
    assert_eq!(
        pipeline::shader_parts(ShaderId::Terrain),
        vec![ShaderPart::Fog, ShaderPart::ShadowSample, ShaderPart::GiFragment, ShaderPart::GiShared, ShaderPart::Terrain]
    );
    assert_eq!(pipeline::shader_parts(ShaderId::SkyLegacy), vec![ShaderPart::SkyLegacy]);
    assert_eq!(pipeline::shader_parts(ShaderId::Shadow), vec![ShaderPart::Shadow]);
    assert_eq!(pipeline::probe_parts(), vec![ShaderPart::ProbeDecls, ShaderPart::GiShared, ShaderPart::ProbeUpdate]);
}

#[test]
fn shader_placeholders_are_filled_from_settings() {
    let rows = |f: Vec<pipeline::ShaderFill>| -> Vec<(&str, &str, FillKind)> {
        f.iter().map(|x| (x.placeholder, x.setting, x.kind)).collect()
    };
    let mesh = rows(pipeline::shader_fills(ShaderId::Mesh));
    assert_eq!(mesh.len(), 6);
    assert_eq!(mesh[0], ("__GI_DEBUG__", "HMS_RTGI_DEBUG", FillKind::Integer));
    assert_eq!(mesh[1], ("__H4DBG__", "HMS_H4_SHADEDBG", FillKind::OneDecimal));
    assert_eq!(mesh[5], ("__DECO_CY__", "HMS_DECO_CONTRAST", FillKind::SecondFactor));
    assert_eq!(rows(pipeline::shader_fills(ShaderId::Water))[1], ("__WDBG__", "HMS_WDBG", FillKind::Verbatim));
    assert_eq!(rows(pipeline::shader_fills(ShaderId::Terrain))[1], ("__TDBG__", "HMS_TDBG", FillKind::Verbatim));
    for s in [ShaderId::Sky, ShaderId::SkyLegacy, ShaderId::Shadow] {
        assert!(pipeline::shader_fills(s).is_empty());
    }
    assert_eq!(
        rows(pipeline::probe_fills()),
        vec![("__GI_DEBUG__", "", FillKind::Zero), ("__GI_CDEBUG__", "HMS_RTGI_CDEBUG", FillKind::Integer)]
    );
}
