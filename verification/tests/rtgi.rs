use hms_render::config;
use hms_render::layout;
use hms_render::rtgi;
use hms_render::rtgi::{Dims, GiParams, GpuEmitter, GpuLight, ProbeResource, RtGi, RtGiScene, ScaledSky, Tuning};
use hms_render::words::{zero4, Vec3, Vec4};

fn b(x: f32) -> u32 {
    x.to_bits()
}

fn v3(x: f32, y: f32, z: f32) -> Vec3 {
    Vec3 { x: b(x), y: b(y), z: b(z) }
}

fn scene() -> RtGiScene {
    RtGiScene {
        nodes: vec![0u8; 32 * 3 + 5],
        tris: vec![0u8; 48 * 2],
        tri_mat: vec![],
        mats: vec![],
        lights: vec![],
        emitters: vec![],
        total_emitter_weight: b(2.5),
        bounds_min: v3(-1.0, -2.0, -3.0),
        bounds_max: v3(4.0, 5.0, 6.0),
        sun_dir: v3(0.0, 0.6, 0.8),
        sun_color: v3(1.0, 2.0, 3.0),
        sky_color: v3(0.1, 0.2, 0.3),
        fog_sigma: b(0.01),
        fog_top: b(7.0),
    }
}

fn sky() -> ScaledSky {
    ScaledSky { sun_color: v3(2.0, 4.0, 6.0), sky_color: v3(0.2, 0.4, 0.6), cube_gain: b(1.5) }
}

fn no_tuning() -> Tuning {
    Tuning { gain: None, ground: None, nee: None, cap: None, nee_margin: None, no_cube: false }
}

#[test]
fn constants_of_the_records() {
    assert_eq!(rtgi::VIS_TEXELS, rtgi::VIS_RES * rtgi::VIS_RES);
    assert_eq!((rtgi::VIS_RES, rtgi::SH_N, rtgi::MAX_PROBES), (8, 10, 32_768));
}

#[test]
fn default_parameters() {
    let p = GiParams::default();
    let f = |v: Vec4| [f32::from_bits(v.x), f32::from_bits(v.y), f32::from_bits(v.z), f32::from_bits(v.w)];
    assert_eq!(f(p.origin), [0.0, 0.0, 0.0, 1.0]);
    assert_eq!(p.dims, Vec4 { x: 1, y: 1, z: 1, w: 0 });
    assert_eq!(f(p.sun_dir), [0.0, 0.0, 1.0, 0.0]);
    assert_eq!(f(p.sky_color), [0.0, 0.0, 0.0, 0.25]);
    assert_eq!(p.misc, Vec4 { x: 0, y: 1, z: 0, w: 0 });
    assert_eq!(p.misc2, Vec4 { x: 0, y: 0, z: 1, w: 0 });
    assert_eq!(f(p.fog), [0.0, 0.0, 0.0, 1.0]);
    assert_eq!(f(p.bias), [0.2, 0.3, 1.5, 1.0]);
    assert_eq!(f(p.nee), [2.0, 12.0, 0.0, 0.0]);
    let w = p.words();
    assert_eq!(w.len(), 40);
    assert_eq!((w[3], w[4], w[26], w[33]), (b(1.0), 1, 1, b(0.3)));
}

#[test]
fn a_new_grid_has_one_probe() {
    let g = RtGi::new(None, None);
    assert!(!g.has_scene());
    assert_eq!((g.nprobes, g.rays_per_thread, g.updates, g.kick), (1, 2, 0, 0));
    assert_eq!(f32::from_bits(g.hysteresis), 0.92);
    assert_eq!(RtGi::new(Some("4"), Some(b(2.0))).hysteresis, b(0.99));
    assert_eq!(RtGi::new(Some("4"), Some(b(-1.0))).hysteresis, b(0.0));
    assert_eq!(RtGi::new(Some("7"), None).rays_per_thread, 4);
}

#[test]
fn grids_stay_under_the_cap() {
    let c = |x, y, z| Dims { nx: x, ny: y, nz: z };
    assert_eq!(RtGi::plan_grid(c(3, 3, 3), 64), Some(c(4, 4, 4)));
    assert_eq!(RtGi::plan_grid(c(3, 3, 4), 64), None);
    assert_eq!(RtGi::plan_grid(c(1, 1, 1), 3), Some(c(2, 2, 2)));
    assert_eq!(RtGi::plan_grid(c(u32::MAX, u32::MAX, u32::MAX), u32::MAX), None);
    assert_eq!(RtGi::plan_grid(c(0, 0, 100), 101), Some(c(1, 1, 101)));
}

#[test]
fn a_scene_fills_the_parameters() {
    let mut g = RtGi::new(None, None);
    g.set_enabled(true);
    assert_eq!(g.params.dims.w, 0);
    let d = Dims { nx: 4, ny: 3, nz: 2 };
    let plan = g.set_scene(&scene(), b(1.5), d, sky(), true, no_tuning());
    assert!(g.has_scene());
    assert_eq!((g.nprobes, g.frame, g.updates), (24, 0, 0));
    assert_eq!(g.params.origin, Vec4 { x: b(-1.0), y: b(-2.0), z: b(-3.0), w: b(1.5) });
    assert_eq!(g.params.dims, Vec4 { x: 4, y: 3, z: 2, w: 1 });
    assert_eq!(g.params.sun_dir, Vec4 { x: b(0.0), y: b(0.6), z: b(0.8), w: b(1.0) });
    assert_eq!(g.params.sun_color, Vec4 { x: b(2.0), y: b(4.0), z: b(6.0), w: b(1.5) });
    assert_eq!(g.params.sky_color, Vec4 { x: b(0.2), y: b(0.4), z: b(0.6), w: b(0.25) });
    assert_eq!(g.params.misc, Vec4 { x: 0, y: 2, z: 3, w: 2 });
    assert_eq!(g.params.misc2, Vec4 { x: 0, y: 0, z: 24, w: 0 });
    assert_eq!(g.params.fog, Vec4 { x: b(0.01), y: b(7.0), z: b(2.5), w: b(1.0) });
    assert_eq!(g.params.bias, Vec4 { x: b(0.2), y: b(0.3), z: b(1.5), w: b(1.3) });
    assert_eq!(g.params.nee, Vec4 { x: b(2.0), y: b(12.0), z: b(0.05), w: 0 });
    // placeholders for everything the scene lacks
    assert_eq!(plan.tri_mat, vec![0]);
    assert_eq!(plan.mats, vec![b(0.5), b(0.5), b(0.5), 0, 0, 0, 0, 0]);
    assert_eq!(plan.lights, vec![0; 16]);
    assert_eq!(plan.emitters, vec![0; 16]);
    assert_eq!((plan.probe_bytes, plan.vis_bytes), (24 * 160, 24 * 512));
}

#[test]
fn scene_records_and_tuning() {
    let mut s = scene();
    s.tri_mat = vec![4, 2];
    s.mats = vec![Vec4 { x: 1, y: 2, z: 3, w: 4 }, Vec4 { x: 5, y: 6, z: 7, w: 8 }];
    s.lights = vec![GpuLight { pos: Vec4 { x: 1, y: 2, z: 3, w: 4 }, color: zero4(), dir: zero4(), falloff: Vec4 { x: 9, y: 8, z: 7, w: 6 } }];
    s.emitters = vec![GpuEmitter { rad: Vec4 { x: 1, y: 1, z: 1, w: 2 }, ..GpuEmitter::default() }];
    let mut g = RtGi::new(None, None);
    let t = Tuning { gain: Some(b(2.0)), ground: Some(b(0.5)), nee: Some(b(100.0)), cap: Some(b(0.0)), nee_margin: Some(b(-1.0)), no_cube: true };
    let plan = g.set_scene(&s, b(1.0), Dims { nx: 1, ny: 1, nz: 1 }, sky(), true, t);
    assert_eq!(plan.tri_mat, vec![4, 2]);
    assert_eq!(plan.mats, vec![1, 2, 3, 4, 5, 6, 7, 8]);
    assert_eq!(plan.lights, vec![1, 2, 3, 4, 0, 0, 0, 0, 0, 0, 0, 0, 9, 8, 7, 6]);
    assert_eq!(&plan.emitters[12..], &[1, 1, 1, 2]);
    assert_eq!(g.params.misc2, Vec4 { x: 1, y: 1, z: 1, w: 0 });
    assert_eq!(g.params.sun_dir.w, 0);
    assert_eq!(g.params.sky_color.w, b(0.5));
    assert_eq!(g.params.bias.w, b(2.0));
    assert_eq!(g.params.nee, Vec4 { x: b(64.0), y: b(0.1), z: b(0.0), w: 0 });
    assert_eq!(g.params.dims.w, 0);
}

#[test]
fn the_mode_flag_needs_a_scene() {
    let mut g = RtGi::new(None, None);
    g.set_scene(&scene(), b(1.0), Dims { nx: 2, ny: 2, nz: 2 }, sky(), false, no_tuning());
    g.set_enabled(true);
    assert_eq!(g.params.dims.w, 1);
    g.set_enabled(false);
    assert_eq!(g.params.dims.w, 0);
    g.set_enabled(true);
    g.clear_scene();
    assert!(!g.has_scene() && !g.enabled);
    assert_eq!(g.params.dims.w, 0);
}

#[test]
fn gain_is_limited() {
    let mut g = RtGi::new(None, None);
    for (x, want) in [(0.0f32, 0.01f32), (3.0, 3.0), (40.0, 16.0)] {
        g.set_gain(b(x));
        assert_eq!(g.params.bias.w, b(want));
    }
}

fn grid(nx: u32, ny: u32, nz: u32) -> RtGi {
    let mut g = RtGi::new(None, None);
    g.set_scene(&scene(), b(1.0), Dims { nx, ny, nz }, sky(), false, no_tuning());
    g
}

#[test]
fn slices_partition_the_grid() {
    for parts in [1u32, 2, 3, 7, 29, 30, 31, 100] {
        let mut g = grid(5, 3, 2);
        let mut hit = vec![0; 30];
        for part in 0..parts {
            if let Some(d) = g.dispatch_part(Some(b(0.5)), b(0.1), parts, part) {
                for i in d.params.misc2.w..d.params.misc2.w + d.count {
                    hit[i as usize] += 1;
                }
                assert_eq!(d.params.fog.w, b(0.5));
            }
        }
        assert_eq!(hit, vec![1; 30], "{} parts", parts);
    }
}

#[test]
fn the_first_update_takes_the_full_estimate() {
    let mut g = grid(2, 2, 2);
    let first = g.dispatch(None, b(0.08)).unwrap();
    assert_eq!((first.count, first.params.fog.w, first.params.misc.x), (8, b(1.0), 0));
    let second = g.dispatch(None, b(0.08)).unwrap();
    assert_eq!((second.params.fog.w, second.params.misc.x), (b(0.08), 1));
    assert_eq!((g.frame, g.updates, g.last_dispatch_probes), (2, 2, 8));
    let given = g.dispatch(Some(b(0.3)), b(0.08)).unwrap();
    assert_eq!(given.params.fog.w, b(0.3));
}

#[test]
fn no_scene_no_update() {
    let mut g = RtGi::new(None, None);
    g.kick(4096);
    let before = g;
    assert!(g.dispatch(None, b(0.1)).is_none());
    assert_eq!(g, before);
}

#[test]
fn a_kick_replaces_every_slice_once() {
    let mut g = grid(20, 20, 10);
    let target = 1000;
    let parts = g.parts_per_frame(target);
    assert_eq!(parts, 4);
    for p in 0..parts {
        g.dispatch_part(None, b(0.1), parts, p);
    }
    g.set_sun(v3(1.0, 0.0, 0.0), v3(9.0, 9.0, 9.0), target);
    assert_eq!(g.params.sun_dir, Vec4 { x: b(1.0), y: 0, z: 0, w: 0 });
    assert_eq!(g.params.sun_color, Vec4 { x: b(9.0), y: b(9.0), z: b(9.0), w: b(1.5) });
    assert_eq!(g.kick, 5);
    let mut full = vec![false; 4];
    for p in 2..7 {
        let d = g.dispatch_part(None, b(0.1), parts, p).unwrap();
        assert_eq!(d.params.fog.w, b(1.0));
        full[(p % 4) as usize] = true;
    }
    assert_eq!(full, vec![true; 4]);
    assert_eq!(g.dispatch_part(None, b(0.1), parts, 7).unwrap().params.fog.w, b(0.1));
}

#[test]
fn a_slice_behind_the_grid_only_uses_up_the_kick() {
    let mut g = grid(1, 1, 3);
    g.kick(4096);
    let k = g.kick;
    assert!(g.dispatch_part(None, b(0.1), 5, 4).is_none());
    assert_eq!((g.kick, g.frame, g.updates), (k - 1, 0, 0));
}

#[test]
fn slices_per_frame() {
    let g = grid(32, 32, 32);
    assert_eq!(g.parts_per_frame(4096), 8);
    assert_eq!(g.parts_per_frame(4095), 9);
    assert_eq!(g.parts_per_frame(0), 511);
    assert_eq!(g.parts_per_frame(u32::MAX), 1);
    assert_eq!(grid(1, 1, 1).parts_per_frame(1), 1);
}

#[test]
fn corners_around_a_point() {
    let g = grid(4, 3, 2);
    let c = g.dump_at(1, 1, 0);
    let got: Vec<(u32, u32, u32, u32)> = c.iter().map(|k| (k.x, k.y, k.z, k.index)).collect();
    assert_eq!(
        got,
        vec![(1, 1, 0, 5), (2, 1, 0, 6), (1, 2, 0, 9), (2, 2, 0, 10), (1, 1, 1, 17), (2, 1, 1, 18), (1, 2, 1, 21), (2, 2, 1, 22)]
    );
    // a point outside is moved into the last cell
    assert_eq!(g.dump_at(99, 99, 99)[7].index, 23);
    // a flat grid has no second layer
    let flat = grid(3, 2, 1);
    assert_eq!(flat.dump_at(0, 0, 0).len(), 4);
    assert_eq!(grid(1, 1, 1).dump_at(5, 5, 5).len(), 1);
}

#[test]
fn cube_faces_are_read_back() {
    let mut data = vec![0u8; 6 * 256];
    for f in 0..6usize {
        for c in 0..3usize {
            let h = half::f16::from_f32(f as f32 + 0.25 * c as f32).to_le_bytes();
            data[f * 256 + 2 * c] = h[0];
            data[f * 256 + 2 * c + 1] = h[1];
        }
    }
    let faces = rtgi::face_colors(&data);
    for f in 0..6usize {
        assert_eq!(faces[f], v3(f as f32, f as f32 + 0.25, f as f32 + 0.5));
    }
}

#[test]
fn warm_up_runs_whole_passes() {
    let mut g = grid(3, 2, 2);
    let weights: Vec<u32> = [1.0f32, 0.66, 0.5].iter().map(|x| b(*x)).collect();
    let passes = g.warm_up(&weights);
    assert_eq!(passes.len(), 3);
    for (i, d) in passes.iter().enumerate() {
        assert_eq!((d.count, d.params.fog.w, d.params.misc.x, d.params.misc2.w), (12, weights[i], i as u32, 0));
    }
    assert_eq!((g.frame, g.updates, g.last_dispatch_probes), (3, 3, 12));
    assert_eq!(RtGi::new(None, None).warm_up(&weights).len(), 0);
}

#[test]
fn a_frame_updates_at_most_its_target() {
    for target in [64u32, 100, 333, 4096] {
        let mut g = grid(17, 13, 11);
        let parts = g.parts_per_frame(target);
        for p in 0..parts {
            if let Some(d) = g.dispatch_part(None, b(0.1), parts, p) {
                assert!(d.count <= target);
            }
        }
    }
}

#[test]
fn every_position_has_its_own_number() {
    let g = grid(4, 3, 3);
    let mut seen: Vec<u32> = vec![];
    for z in [0u32, 1] {
        for y in [0u32, 1] {
            for x in [0u32, 2] {
                for c in g.dump_at(x, y, z) {
                    assert_eq!(c.index, c.x + 4 * c.y + 12 * c.z);
                    seen.push(c.index);
                }
            }
        }
    }
    seen.sort();
    seen.dedup();
    assert_eq!(seen, (0..36).collect::<Vec<u32>>());
}

#[test]
fn a_full_counter_matters_only_where_a_pass_is_recorded() {
    let mut g = RtGi::new(None, None);
    g.updates = u32::MAX;
    assert!(!g.records_pass(1, 0));
    assert!(g.dispatch(None, b(0.1)).is_none());
    assert!(g.dispatch_part(None, b(0.1), 3, 1).is_none());
    assert_eq!(g.warm_up(&vec![b(0.5), b(0.25)]).len(), 0);
    assert_eq!(g.updates, u32::MAX);
    let mut g = grid(2, 2, 2);
    g.updates = u32::MAX;
    assert!(g.records_pass(5, 3) && !g.records_pass(5, 4) && g.records_pass(0, 9));
    assert!(g.dispatch_part(None, b(0.1), 5, 4).is_none());
    assert_eq!(g.updates, u32::MAX);
}

#[test]
fn nothing_is_dumped_without_a_scene() {
    let mut g = grid(3, 3, 3);
    assert_eq!(g.dump_at(1, 1, 1).len(), 8);
    g.clear_scene();
    assert_eq!(g.dump_at(1, 1, 1).len(), 0);
    assert_eq!(RtGi::new(None, None).dump_at(0, 0, 0).len(), 0);
    let d = RtGi::plan_grid(Dims { nx: 1, ny: 1, nz: 1 }, 8).unwrap();
    assert_eq!(grid(d.nx, d.ny, d.nz).dump_at(4, 0, 9).len(), 8);
}

#[test]
fn a_sun_override_replaces_then_settles() {
    let mut g = grid(4, 4, 8);
    let target = 64;
    let parts = g.parts_per_frame(target);
    g.dispatch(None, b(0.1));
    g.set_sun(v3(0.0, 0.0, 1.0), v3(1.0, 1.0, 1.0), target);
    let weights: Vec<u32> =
        (0..parts + 3).map(|i| g.dispatch_part(None, b(0.1), parts, 5 + i).unwrap().params.fog.w).collect();
    for (i, w) in weights.iter().enumerate() {
        assert_eq!(*w, if (i as u32) < parts + 1 { b(1.0) } else { b(0.1) });
    }
}

#[test]
fn the_spacing_has_a_floor() {
    assert_eq!(config::min_spacing(None), b(1.5));
    assert_eq!(config::min_spacing(Some(b(0.1))), b(0.25));
    assert_eq!(config::min_spacing(Some(b(-3.0))), b(0.25));
    assert_eq!(config::min_spacing(Some(f32::NAN.to_bits())), b(0.25));
    assert_eq!(config::min_spacing(Some(b(4.0))), b(4.0));
    assert_eq!(RtGi::floor_spacing(b(0.7), b(1.5)), b(1.5));
    assert_eq!(RtGi::floor_spacing(b(1.62), b(1.5)), b(1.62));
}

#[test]
fn the_probe_update_binds_its_records() {
    let mut g = RtGi::new(None, None);
    let dims = Dims { nx: 2, ny: 2, nz: 2 };
    let plan = g.set_scene(&scene(), b(1.0), dims, sky(), true, no_tuning());
    assert_eq!(plan.bindings, rtgi::probe_bindings(true));
    let layout = layout::probe_layout();
    assert_eq!(plan.bindings.len(), layout.len());
    assert!(plan.bindings.iter().zip(&layout).all(|(b, l)| b.binding == l.binding));
    let r: Vec<ProbeResource> = plan.bindings.iter().map(|b| b.resource).collect();
    assert_eq!((r[0], r[5], r[6]), (ProbeResource::Nodes, ProbeResource::Emitters, ProbeResource::Params));
    assert_eq!((r[7], r[8]), (ProbeResource::Probes, ProbeResource::Visibility));
    assert_eq!((r[9], r[10]), (ProbeResource::SkyCube { captured: true }, ProbeResource::SkySampler { captured: true }));
    assert_eq!(rtgi::probe_bindings(false)[9].resource, ProbeResource::SkyCube { captured: false });
}
