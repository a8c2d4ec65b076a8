use hms_render::dds;
use hms_render::memprof;
use hms_render::memprof::MemProf;
use hms_render::texture;
use hms_render::texture::{LevelShape, TexelFormat, ViewKind};

fn ramp(n: usize) -> Vec<u8> {
    (0..n).map(|i| (i * 37 % 251) as u8).collect()
}

fn reference_halving(src: &[u8], w: usize, h: usize, bias: u32) -> (Vec<u8>, usize, usize) {
    let (dw, dh) = ((w / 2).max(1), (h / 2).max(1));
    let mut out = vec![0u8; dw * dh * 4];
    for y in 0..dh {
        for x in 0..dw {
            for c in 0..4 {
                let at = |dx: usize, dy: usize| {
                    let (sx, sy) = ((2 * x + dx).min(w - 1), (2 * y + dy).min(h - 1));
                    src[(sy * w + sx) * 4 + c] as u32
                };
                out[(y * dw + x) * 4 + c] = ((at(0, 0) + at(1, 0) + at(0, 1) + at(1, 1) + bias) / 4) as u8;
            }
        }
    }
    (out, dw, dh)
}

#[test]
fn downsample_averages_blocks() {
    // one 2x2 block per channel, rounded to nearest
    let src = [0u8, 10, 255, 1, 1, 10, 255, 1, 1, 10, 255, 2, 0, 10, 254, 2];
    let (out, w, h) = texture::downsample_2x(&src, 2, 2);
    assert_eq!((w, h), (1, 1));
    assert_eq!(out, vec![1, 10, 255, 2]);
    for (w, h) in [(1u32, 1u32), (3, 3), (5, 2), (1, 8), (8, 1), (6, 7)] {
        let src = ramp((w * h * 4) as usize);
        let (out, dw, dh) = texture::downsample_2x(&src, w, h);
        let (want, ww, wh) = reference_halving(&src, w as usize, h as usize, 2);
        assert_eq!((dw as usize, dh as usize), (ww, wh));
        assert_eq!(out, want);
    }
}

#[test]
fn a_flat_level_stays_flat() {
    let src: Vec<u8> = [7u8, 200, 3, 255].iter().cycle().take(4 * 5 * 3).cloned().collect();
    let (out, w, h) = texture::downsample_2x(&src, 5, 3);
    assert_eq!((w, h), (2, 1));
    assert_eq!(out, vec![7, 200, 3, 255, 7, 200, 3, 255]);
}

#[test]
fn gamma_table_is_the_rounded_power() {
    let lut = texture::gamma_encode_lut();
    for i in 0..256usize {
        let want = ((i as f32 / 255.0).powf(1.0 / 2.2) * 255.0 + 0.5) as u8;
        assert_eq!(lut[i], want, "{}", i);
    }
    assert_eq!((lut[0], lut[1], lut[128], lut[255]), (0, 21, 186, 255));
    for i in 1..256usize {
        assert!(lut[i - 1] <= lut[i]);
    }
}

#[test]
fn remap_leaves_alpha_and_partial_texels() {
    let mut lut = [0u8; 256];
    for i in 0..256 {
        lut[i] = 255 - i as u8;
    }
    let data = [1u8, 2, 3, 4, 5, 6, 7, 8, 9, 10];
    assert_eq!(texture::remap_rgb(&data, Some(&lut)), vec![254, 253, 252, 4, 250, 249, 248, 8, 9, 10]);
    assert_eq!(texture::remap_rgb(&data, None), data.to_vec());
}

#[test]
fn level_counts() {
    for (w, h, n) in [(1, 1, 1), (2, 1, 2), (3, 5, 3), (128, 128, 8), (1, 4096, 13), (255, 256, 9), (u32::MAX, 1, 32)] {
        assert_eq!(texture::mip_level_count(w, h), n);
        assert_eq!(n, 32 - w.max(h).leading_zeros());
    }
    let cube = texture::build_env_cube();
    assert_eq!((cube.size, cube.faces, cube.mips), (128, 6, 8));
    assert_eq!(cube.format, TexelFormat::Rgba16Float);
    assert_eq!(cube.mips, texture::mip_level_count(cube.size, cube.size));
    let u = cube.usage;
    assert!(u.render_target && u.sampled && u.copy_from && u.copy_to);
    assert_eq!((cube.clear_level, cube.clear_view), (0, ViewKind::Flat));
    let c = cube.clear_color;
    assert_eq!((c.x, c.y, c.z, c.w), (0, 0, 0, 1.0f32.to_bits()));
    assert_eq!(cube.view, ViewKind::Cube);
    assert!(!cube.sampler.repeat && cube.sampler.linear && cube.sampler.linear_mips);
}

#[test]
fn a_full_chain_ends_in_one_texel() {
    let mut p = MemProf::new();
    let (w, h) = (6u32, 3u32);
    let data = ramp((w * h * 4) as usize);
    let plan = texture::upload_texture_bgra(&mut p, &data, w, h);
    assert_eq!(plan.format, TexelFormat::Bgra8Unorm);
    let dims: Vec<(u32, u32, u32)> = plan.levels.iter().map(|l| (l.width, l.height, l.row_bytes)).collect();
    assert_eq!(dims, vec![(6, 3, 24), (3, 1, 12), (1, 1, 4)]);
    let (l1, w1, h1) = reference_halving(&data, 6, 3, 2);
    let (l2, _, _) = reference_halving(&l1, w1, h1, 2);
    assert_eq!(plan.levels[0].data, data);
    assert_eq!(plan.levels[1].data, l1);
    assert_eq!(plan.levels[2].data, l2);
    // 6*3*4 bytes and a third more
    assert_eq!(memprof::report(&p), (96, 0, 0, 1, 0));
    assert_eq!(memprof::categories(&p), vec![("tex:rgba-mips", 1, 96)]);
}

#[test]
fn gamma_chain_is_encoded_after_filtering() {
    let mut p = MemProf::new();
    let data = ramp(4 * 4 * 4);
    let plan = texture::upload_texture_bgra_gamma_enc(&mut p, &data, 4, 4);
    let lut = texture::gamma_encode_lut();
    let (l1, w1, h1) = reference_halving(&data, 4, 4, 2);
    let (l2, _, _) = reference_halving(&l1, w1, h1, 2);
    assert_eq!(plan.levels[0].data, texture::remap_rgb(&data, Some(&lut)));
    assert_eq!(plan.levels[1].data, texture::remap_rgb(&l1, Some(&lut)));
    assert_eq!(plan.levels[2].data, texture::remap_rgb(&l2, Some(&lut)));
    assert_ne!(plan.levels[0].data, data);
}

#[test]
fn other_uploads() {
    let mut p = MemProf::new();
    let data = ramp(2 * 2 * 4);
    let rgba = texture::upload_texture_rgba(&mut p, &data, 2, 2);
    assert_eq!((rgba.format, rgba.levels.len()), (TexelFormat::Rgba8Unorm, 2));
    let nomip = texture::upload_texture_bgra_nomip(&mut p, &data, 2, 2);
    assert_eq!((nomip.format, nomip.levels.len()), (TexelFormat::Bgra8Unorm, 1));
    let hdr_bytes = ramp(2 * 1 * 8);
    let hdr = texture::upload_texture_rgba16f_nomip(&mut p, &hdr_bytes, 2, 1);
    assert_eq!(hdr.format, TexelFormat::Rgba16Float);
    assert_eq!(hdr.levels.len(), 1);
    assert_eq!((hdr.levels[0].data.clone(), hdr.levels[0].row_bytes), (hdr_bytes, 16));
    assert_eq!(
        memprof::categories(&p),
        vec![("tex:emis-hdr", 1, 16), ("tex:rgba-mips", 1, 21), ("tex:rgba-nomip", 1, 16)]
    );
    assert_eq!(memprof::report(&p), (21 + 16 + 16, 0, 0, 3, 0));
}

#[test]
fn readback_counts_differing_bytes() {
    let w = 5u32;
    assert_eq!(texture::readback_pitch(w), 256);
    assert_eq!(texture::readback_pitch(64), 256);
    assert_eq!(texture::readback_pitch(65), 512);
    let data = ramp(4 * 20);
    let mut mapped = vec![0xaau8; 4 * 256];
    for r in 0..4 {
        mapped[r * 256..r * 256 + 20].copy_from_slice(&data[r * 20..r * 20 + 20]);
    }
    assert_eq!(texture::readback_report(&mapped, &data, w), (0, 80, 0));
    mapped[256 + 3] ^= 1;
    mapped[3 * 256 + 19] ^= 1;
    assert_eq!(texture::readback_report(&mapped, &data, w), (2, 80, 2));
}

#[test]
fn authored_cubes_keep_face_order_and_alpha() {
    let mut p = MemProf::new();
    let faces: Vec<(Vec<u8>, u32, u32)> = (0..6).map(|f| (ramp(2 * 2 * 4).iter().map(|b| b ^ f as u8).collect(), 2, 2)).collect();
    let c = texture::build_authored_env_cube(&mut p, &faces).unwrap();
    assert_eq!((c.format, c.view), (TexelFormat::Rgba8Unorm, ViewKind::Cube));
    assert!(c.usage.sampled && c.usage.copy_to && !c.usage.render_target && !c.usage.copy_from);
    assert_eq!((c.width, c.height, c.mips), (2, 2, 2));
    for f in 0..6 {
        let mut want = faces[f].0.clone();
        for px in want.chunks_exact_mut(4) {
            px.swap(0, 2);
        }
        assert_eq!(c.faces[f][0].data, want);
        let (l1, _, _) = reference_halving(&want, 2, 2, 0);
        assert_eq!(c.faces[f][1].data, l1);
        assert_eq!((c.faces[f][1].width, c.faces[f][1].row_bytes), (1, 4));
    }
    assert_eq!(memprof::categories(&p), vec![("tex:authored-env-cube", 1, 2 * 2 * 4 * 6 * 4 / 3)]);
}

#[test]
fn malformed_face_sets_are_refused() {
    let mut p = MemProf::new();
    let face = (ramp(16), 2u32, 2u32);
    let five: Vec<(Vec<u8>, u32, u32)> = (0..5).map(|_| face.clone()).collect();
    assert!(texture::build_authored_env_cube(&mut p, &five).is_none());
    let mut short: Vec<(Vec<u8>, u32, u32)> = (0..6).map(|_| face.clone()).collect();
    short[3].0.pop();
    assert!(texture::build_authored_env_cube(&mut p, &short).is_none());
    let mut uneven: Vec<(Vec<u8>, u32, u32)> = (0..6).map(|_| face.clone()).collect();
    uneven[5].1 = 1;
    assert!(texture::build_authored_env_cube(&mut p, &uneven).is_none());
    let empty: Vec<(Vec<u8>, u32, u32)> = (0..6).map(|_| (vec![], 0, 0)).collect();
    assert!(texture::build_authored_env_cube(&mut p, &empty).is_none());
    assert_eq!(memprof::categories(&p).len(), 0);

    let c = texture::build_hdr_env_cube(&mut p, &vec![(64, 4, 4); 6]).unwrap();
    assert_eq!((c.width, c.height, c.format, c.view), (4, 4, TexelFormat::Rgba16Float, ViewKind::Cube));
    let shape = |w, h, row_bytes| LevelShape { width: w, height: h, row_bytes };
    assert_eq!(c.levels, vec![shape(4, 4, 32), shape(2, 2, 16), shape(1, 1, 8)]);
    assert_eq!(texture::hdr_cube_levels(5, 1), vec![shape(5, 1, 40), shape(2, 1, 16), shape(1, 1, 8)]);
    assert!(texture::build_hdr_env_cube(&mut p, &vec![(63, 4, 4); 6]).is_none());
    assert_eq!(memprof::categories(&p), vec![("tex:cluster-env-cube", 1, 4 * 4 * 8 * 6 * 4 / 3)]);
}

#[test]
fn box_taps_repeat_the_edge() {
    assert_eq!(texture::box_taps(4, 4, 1, 1), (10, 11, 14, 15));
    assert_eq!(texture::box_taps(1, 3, 0, 0), (0, 0, 1, 1));
    assert_eq!(texture::box_taps(1, 1, 0, 0), (0, 0, 0, 0));
}

fn dds_file(w: u32, h: u32, mips: u32, dxgi: u32, blocks: usize) -> Vec<u8> {
    let mut d = vec![0u8; 148 + blocks];
    d[0..4].copy_from_slice(b"DDS ");
    d[12..16].copy_from_slice(&h.to_le_bytes());
    d[16..20].copy_from_slice(&w.to_le_bytes());
    d[28..32].copy_from_slice(&mips.to_le_bytes());
    d[128..132].copy_from_slice(&dxgi.to_le_bytes());
    d
}

#[test]
fn dds_levels_follow_each_other() {
    let mut p = MemProf::new();
    // 16x8 at 8 bytes per block: 4x2, then 2x1 blocks; 4x2 texels is no whole block
    let d = dds_file(16, 8, 5, 71, 8 * 8 + 2 * 8 + 8);
    let plan = dds::upload_texture_dds(&mut p, true, &d).unwrap();
    assert_eq!(plan.format, TexelFormat::Bc1RgbaUnorm);
    assert_eq!((plan.width, plan.height, plan.levels.len()), (16, 8, 2));
    let l0 = plan.levels[0];
    assert_eq!((l0.offset, l0.len, l0.width, l0.height, l0.row_bytes, l0.rows), (148, 64, 16, 8, 32, 2));
    let l1 = plan.levels[1];
    assert_eq!((l1.offset, l1.len, l1.width, l1.height, l1.row_bytes, l1.rows), (212, 16, 8, 4, 16, 1));
    assert_eq!(memprof::report(&p), (0, 80, 0, 1, 0));
    assert_eq!(memprof::categories(&p), vec![("tex:dds-bc", 1, 80)]);
}

#[test]
fn dds_chain_ends_with_the_data() {
    let mut p = MemProf::new();
    let d = dds_file(16, 16, 3, 77, 16 * 16 + 10);
    assert_eq!(dds::upload_texture_dds(&mut p, true, &d).unwrap().levels.len(), 1);
    // a header without a level count still has one level
    let d = dds_file(4, 4, 0, 84, 16);
    let plan = dds::upload_texture_dds(&mut p, true, &d).unwrap();
    assert_eq!((plan.format, plan.levels.len()), (TexelFormat::Bc5RgSnorm, 1));
}

#[test]
fn dds_formats() {
    let mut p = MemProf::new();
    let want = [
        (71, Some(TexelFormat::Bc1RgbaUnorm)),
        (72, Some(TexelFormat::Bc1RgbaUnorm)),
        (74, Some(TexelFormat::Bc2RgbaUnorm)),
        (75, Some(TexelFormat::Bc2RgbaUnorm)),
        (77, Some(TexelFormat::Bc3RgbaUnorm)),
        (78, Some(TexelFormat::Bc3RgbaUnorm)),
        (80, Some(TexelFormat::Bc4RUnorm)),
        (83, Some(TexelFormat::Bc5RgUnorm)),
        (84, Some(TexelFormat::Bc5RgSnorm)),
        (28, None),
        (98, None),
        (73, None),
    ];
    for (dxgi, f) in want {
        let d = dds_file(4, 4, 1, dxgi, 16);
        assert_eq!(dds::upload_texture_dds(&mut p, true, &d).map(|x| x.format), f, "{}", dxgi);
    }
}

#[test]
fn dds_refusals() {
    let mut p = MemProf::new();
    let good = dds_file(4, 4, 1, 71, 8);
    assert!(dds::upload_texture_dds(&mut p, false, &good).is_none());
    assert!(dds::upload_texture_dds(&mut p, true, &good[..147]).is_none());
    let mut magic = good.clone();
    magic[3] = b'!';
    assert!(dds::upload_texture_dds(&mut p, true, &magic).is_none());
    assert!(dds::upload_texture_dds(&mut p, true, &dds_file(0, 4, 1, 71, 8)).is_none());
    assert!(dds::upload_texture_dds(&mut p, true, &dds_file(4, 0, 1, 71, 8)).is_none());
    assert!(dds::upload_texture_dds(&mut p, true, &dds_file(6, 4, 1, 71, 64)).is_none());
    assert!(dds::upload_texture_dds(&mut p, true, &dds_file(4, 4, 1, 71, 7)).is_none());
    assert!(dds::upload_texture_dds(&mut p, true, &dds_file(u32::MAX - 3, u32::MAX - 3, 1, 77, 64)).is_none());
    assert_eq!(memprof::report(&p), (0, 0, 0, 0, 0));
    assert_eq!(memprof::categories(&p).len(), 0);
}

#[test]
fn the_gamma_table_reads_back() {
    let lut = texture::gamma_encode_lut();
    for (i, &code) in lut.iter().enumerate() {
        let back = 255.0 * (code as f64 / 255.0).powf(2.2);
        assert!((back - i as f64).abs() < 1.2);
        assert!(code as usize >= i);
    }
    assert!(lut.windows(2).all(|w| w[0] <= w[1]));
    assert_eq!(lut, texture::gamma_encode_lut());
}

#[test]
fn authored_cubes_filter_alpha_alike() {
    let mut p = MemProf::new();
    let mut faces = vec![(vec![0u8; 16], 2, 2); 6];
    faces[2].0 = vec![0, 0, 10, 1, 0, 0, 11, 1, 0, 0, 11, 1, 0, 0, 11, 2];
    let c = texture::build_authored_env_cube(&mut p, &faces).unwrap();
    assert_eq!((c.format, c.width, c.height, c.mips, c.faces.len()), (TexelFormat::Rgba8Unorm, 2, 2, 2, 6));
    assert_eq!(c.faces[2][0].data, [10, 0, 0, 1, 11, 0, 0, 1, 11, 0, 0, 1, 11, 0, 0, 2]);
    assert_eq!(c.faces[2][1].data, [10, 0, 0, 1]);
}
