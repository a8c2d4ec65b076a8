//! The render pipelines: shaders, blend states, depth states and samplers.

use crate::config;
use crate::f32bits::F32_TWO;
use crate::layout;
use crate::layout::{
    Attr, LayoutEntry, SamplerId, INSTANCE_ATTRS, SHORT_INSTANCE_ATTRS, SHORT_VERTEX_ATTRS,
    VERTEX_ATTRS,
};
use vstd::prelude::*;

verus! {

// ---- blending ---------------------------------------------------------------------------------
#[derive(Clone, Copy, Debug, PartialEq, Eq, Structural)]
pub enum BlendFactor {
    Zero,
    One,
    Src,
    Dst,
    SrcAlpha,
    OneMinusSrcAlpha,
}

/// One channel group of a blend state; the two products are added.
#[derive(Clone, Copy, Debug, PartialEq, Eq, Structural)]
pub struct BlendComponent {
    pub src: BlendFactor,
    pub dst: BlendFactor,
}

#[derive(Clone, Copy, Debug, PartialEq, Eq, Structural)]
pub struct BlendState {
    pub color: BlendComponent,
    pub alpha: BlendComponent,
}

/// How a fragment is combined with what is already there.
#[derive(Clone, Copy, Debug, PartialEq, Eq, Structural)]
pub enum BlendMode {
    /// Replace what is there.
    Opaque,
    /// Straight alpha.
    Alpha,
    /// Colour already multiplied by alpha.
    Premultiplied,
    /// Sum.
    Additive,
    /// Sum with the source weighted by its alpha.
    AlphaAdditive,
    /// Product.
    Multiply,
    /// Twice the product.
    DoubleMultiply,
    /// Straight alpha with the roles of the two sides exchanged.
    InverseAlpha,
}

/// A factor's value where the source has channel `s` and alpha `a`, the destination channel `d`,
/// and `one` stands for 1.
pub open spec fn factor_value(f: BlendFactor, s: int, a: int, d: int, one: int) -> int {
    match f {
        BlendFactor::Zero => 0,
        BlendFactor::One => one,
        BlendFactor::Src => s,
        BlendFactor::Dst => d,
        BlendFactor::SrcAlpha => a,
        BlendFactor::OneMinusSrcAlpha => one - a,
    }
}

/// The blended channel, times `one`.
pub open spec fn blended(c: BlendComponent, s: int, a: int, d: int, one: int) -> int {
    s * factor_value(c.src, s, a, d, one) + d * factor_value(c.dst, s, a, d, one)
}

/// What each mode makes of a source channel `s` with alpha `a` over `d`, times `one`.
pub open spec fn mode_result(m: BlendMode, s: int, a: int, d: int, one: int) -> int {
    match m {
        BlendMode::Opaque => s * one,
        BlendMode::Alpha => s * a + d * (one - a),
        BlendMode::Premultiplied => s * one + d * (one - a),
        BlendMode::Additive => s * one + d * one,
        BlendMode::AlphaAdditive => s * a + d * one,
        BlendMode::Multiply => s * d,
        BlendMode::DoubleMultiply => 2 * (s * d),
        BlendMode::InverseAlpha => s * (one - a) + d * a,
    }
}

/// The alpha channel of a mode: composited for straight and premultiplied alpha, else replaced.
pub open spec fn mode_keeps_coverage(m: BlendMode) -> bool {
    m == BlendMode::Alpha || m == BlendMode::Premultiplied
}

/// What a mode makes of the alpha `a` of a source over the alpha `d` that is there, times `one`.
pub open spec fn coverage(m: BlendMode, a: int, d: int, one: int) -> int {
    if mode_keeps_coverage(m) {
        a * one + d * (one - a)
    } else {
        a * one
    }
}

/// The fixed-function state of a mode.
pub fn blend_state(m: BlendMode) -> (b: BlendState)
    ensures
        forall|s: int, a: int, d: int, one: int|
            #[trigger] blended(b.color, s, a, d, one) == mode_result(m, s, a, d, one),
        mode_keeps_coverage(m) ==> b.alpha == (BlendComponent {
            src: BlendFactor::One,
            dst: BlendFactor::OneMinusSrcAlpha,
        }),
        !mode_keeps_coverage(m) ==> b.alpha == (BlendComponent {
            src: BlendFactor::One,
            dst: BlendFactor::Zero,
        }),
        forall|a: int, d: int, one: int|
            #[trigger] blended(b.alpha, a, a, d, one) == coverage(m, a, d, one),
{
    let over: BlendComponent = BlendComponent {
        src: BlendFactor::One,
        dst: BlendFactor::OneMinusSrcAlpha,
    };
    let replace: BlendComponent = BlendComponent { src: BlendFactor::One, dst: BlendFactor::Zero };
    let b: BlendState = match m {
        BlendMode::Opaque => BlendState { color: replace, alpha: replace },
        BlendMode::Alpha => BlendState {
            color: BlendComponent {
                src: BlendFactor::SrcAlpha,
                dst: BlendFactor::OneMinusSrcAlpha,
            },
            alpha: over,
        },
        BlendMode::Premultiplied => BlendState { color: over, alpha: over },
        BlendMode::Additive => BlendState {
            color: BlendComponent { src: BlendFactor::One, dst: BlendFactor::One },
            alpha: replace,
        },
        BlendMode::AlphaAdditive => BlendState {
            color: BlendComponent { src: BlendFactor::SrcAlpha, dst: BlendFactor::One },
            alpha: replace,
        },
        BlendMode::Multiply => BlendState {
            color: BlendComponent { src: BlendFactor::Zero, dst: BlendFactor::Src },
            alpha: replace,
        },
        BlendMode::DoubleMultiply => BlendState {
            color: BlendComponent { src: BlendFactor::Dst, dst: BlendFactor::Src },
            alpha: replace,
        },
        BlendMode::InverseAlpha => BlendState {
            color: BlendComponent {
                src: BlendFactor::OneMinusSrcAlpha,
                dst: BlendFactor::SrcAlpha,
            },
            alpha: replace,
        },
    };
    proof {
        assert forall|s: int, a: int, d: int, one: int|
            #[trigger] blended(b.color, s, a, d, one) == mode_result(m, s, a, d, one) by {
            assert(s * d == d * s) by (nonlinear_arith);
            assert(s * 0 == 0 && d * 0 == 0);
        }
        assert forall|a: int, d: int, one: int|
            #[trigger] blended(b.alpha, a, a, d, one) == coverage(m, a, d, one) by {
            assert(d * 0 == 0);
        }
    }
    b
}

/// Multiplied surfaces only ever darken what is behind them.
pub proof fn law_multiply_darkens(s: int, a: int, d: int, one: int)
    requires
        0 <= s <= one,
        0 <= d,
    ensures
        0 <= mode_result(BlendMode::Multiply, s, a, d, one) <= d * one,
{
    assert(0 <= s * d <= d * one) by (nonlinear_arith)
        requires
            0 <= s <= one,
            0 <= d,
    ;
}

/// Straight alpha stays between the two sides, and inverse alpha is straight alpha with the
/// coverage turned round.
pub proof fn law_alpha_interpolates(s: int, a: int, d: int, one: int)
    requires
        0 <= a <= one,
        s <= d,
    ensures
        s * one <= mode_result(BlendMode::Alpha, s, a, d, one) <= d * one,
        mode_result(BlendMode::InverseAlpha, s, a, d, one) == mode_result(
            BlendMode::Alpha,
            s,
            one - a,
            d,
            one,
        ),
{
    assert(s * one <= s * a + d * (one - a) <= d * one) by (nonlinear_arith)
        requires
            0 <= a <= one,
            s <= d,
    ;
}

/// Multiplying the colour by alpha beforehand and blending premultiplied is straight alpha.
pub proof fn law_premultiplied_is_alpha_of_scaled_colour(c: int, s: int, a: int, d: int, one: int)
    requires
        s * one == c * a,
    ensures
        mode_result(BlendMode::Premultiplied, s, a, d, one) == mode_result(
            BlendMode::Alpha,
            c,
            a,
            d,
            one,
        ),
{
}

// ---- pipelines --------------------------------------------------------------------------------
#[derive(Clone, Copy, Debug, PartialEq, Eq, Structural)]
pub enum PipelineId {
    Mesh,
    AlphaTest,
    Foliage,
    Blend,
    BlendPremul,
    BlendMultiply,
    BlendDoubleMultiply,
    Additive,
    ParticleAdd,
    ParticleAlpha,
    ParticlePremul,
    ParticleMultiply,
    HoloSolid,
    Water,
    Terrain,
    SkyOpaque,
    SkyBlend,
    SkyMultiply,
    SkyAlpha,
    SkyPremul,
    DecalAlpha,
    DecalAdditive,
    DecalMultiply,
    DecalDoubleMultiply,
    DecalPremul,
    DecalInvAlpha,
    DecalVector,
    Shadow,
    ShadowH4,
}

#[derive(Clone, Copy, Debug, PartialEq, Eq, Hash, Structural)]
pub enum ShaderId {
    Mesh,
    Sky,
    SkyLegacy,
    Shadow,
    Water,
    Terrain,
}

/// The pieces that shader sources are put together from.
#[derive(Clone, Copy, Debug, PartialEq, Eq, Structural)]
pub enum ShaderPart {
    Fog,
    ShadowSample,
    GiFragment,
    GiShared,
    Mesh,
    H4Mesh,
    Water,
    Terrain,
    Sky,
    SkyLegacy,
    Shadow,
    ProbeDecls,
    ProbeUpdate,
}

/// The bind-group layout behind the camera's (or, for shadows, none).
#[derive(Clone, Copy, Debug, PartialEq, Eq, Structural)]
pub enum MaterialLayout {
    Mesh,
    Water,
    Terrain,
    Shadow,
}

/// The formats that the pipelines draw to, each by the caller's number for it.
#[derive(Clone, Copy, Debug, PartialEq, Eq, Structural)]
pub struct Formats {
    pub color: u32,
    pub depth: u32,
}

#[derive(Clone, Copy, Debug)]
pub struct PipelineDesc {
    pub shader: ShaderId,
    pub layout: MaterialLayout,
    pub vs: &'static str,
    /// `None` for a depth-only pipeline.
    pub fs: Option<&'static str>,
    pub blend: BlendMode,
    pub depth_write: bool,
    /// Pass the depth test always, rather than when not behind.
    pub depth_always: bool,
    /// Draw back faces only, rather than all faces.
    pub cull_front: bool,
    pub bias_constant: i32,
    pub bias_slope: u32,
    /// How many of the vertex and instance attributes the shader reads.
    pub vertex_attrs: usize,
    pub instance_attrs: usize,
    /// The format of the colour target, all of whose channels are written; `None` for a depth-only
    /// pipeline.
    pub color: Option<u32>,
    /// The format of the depth target.
    pub depth: u32,
}

pub open spec fn is_sky(id: PipelineId) -> bool {
    id == PipelineId::SkyOpaque || id == PipelineId::SkyBlend || id == PipelineId::SkyMultiply || id
        == PipelineId::SkyAlpha || id == PipelineId::SkyPremul
}

pub open spec fn is_decal(id: PipelineId) -> bool {
    id == PipelineId::DecalAlpha || id == PipelineId::DecalAdditive || id
        == PipelineId::DecalMultiply || id == PipelineId::DecalDoubleMultiply || id
        == PipelineId::DecalPremul || id == PipelineId::DecalInvAlpha || id
        == PipelineId::DecalVector
}

pub open spec fn is_shadow(id: PipelineId) -> bool {
    id == PipelineId::Shadow || id == PipelineId::ShadowH4
}

/// The blend mode of a pipeline.
pub open spec fn mode_of(id: PipelineId) -> BlendMode {
    match id {
        PipelineId::Blend | PipelineId::ParticleAlpha | PipelineId::HoloSolid
        | PipelineId::SkyAlpha | PipelineId::DecalAlpha | PipelineId::DecalVector =>
            BlendMode::Alpha,
        PipelineId::BlendPremul | PipelineId::ParticlePremul | PipelineId::Water
        | PipelineId::SkyPremul | PipelineId::DecalPremul => BlendMode::Premultiplied,
        PipelineId::Additive | PipelineId::ParticleAdd | PipelineId::SkyBlend =>
            BlendMode::Additive,
        PipelineId::DecalAdditive => BlendMode::AlphaAdditive,
        PipelineId::BlendMultiply | PipelineId::ParticleMultiply | PipelineId::SkyMultiply
        | PipelineId::DecalMultiply => BlendMode::Multiply,
        PipelineId::BlendDoubleMultiply | PipelineId::DecalDoubleMultiply =>
            BlendMode::DoubleMultiply,
        PipelineId::DecalInvAlpha => BlendMode::InverseAlpha,
        _ => BlendMode::Opaque,
    }
}

/// Only opaque pipelines write depth; with the legacy sky, no sky pipeline does.
pub open spec fn writes_depth(id: PipelineId, legacy_sky: bool) -> bool {
    mode_of(id) == BlendMode::Opaque && !(is_sky(id) && legacy_sky)
}

pub open spec fn shader_of(id: PipelineId, legacy_sky: bool) -> ShaderId {
    if is_sky(id) {
        if legacy_sky {
            ShaderId::SkyLegacy
        } else {
            ShaderId::Sky
        }
    } else if is_shadow(id) {
        ShaderId::Shadow
    } else if id == PipelineId::Water {
        ShaderId::Water
    } else if id == PipelineId::Terrain {
        ShaderId::Terrain
    } else {
        ShaderId::Mesh
    }
}

pub open spec fn layout_of(id: PipelineId) -> MaterialLayout {
    if is_shadow(id) {
        MaterialLayout::Shadow
    } else if id == PipelineId::Water {
        MaterialLayout::Water
    } else if id == PipelineId::Terrain {
        MaterialLayout::Terrain
    } else {
        MaterialLayout::Mesh
    }
}

/// The fragment entry point; shadows have none.
pub open spec fn fs_of(id: PipelineId) -> Option<Seq<char>> {
    match id {
        PipelineId::Shadow | PipelineId::ShadowH4 => None,
        PipelineId::AlphaTest => Some("fs_alphatest"@),
        PipelineId::Foliage => Some("fs_foliage"@),
        PipelineId::Blend => Some("fs_blend"@),
        PipelineId::BlendPremul => Some("fs_blend_premul"@),
        PipelineId::BlendMultiply | PipelineId::BlendDoubleMultiply => Some(
            "fs_blend_multiplicative"@,
        ),
        PipelineId::Additive => Some("fs_holo"@),
        PipelineId::HoloSolid => Some("fs_holo_solid"@),
        PipelineId::ParticleAdd | PipelineId::ParticleAlpha | PipelineId::ParticlePremul
        | PipelineId::ParticleMultiply => Some("fs_particle"@),
        PipelineId::DecalAlpha | PipelineId::DecalAdditive | PipelineId::DecalInvAlpha => Some(
            "fs_decal"@,
        ),
        PipelineId::DecalMultiply | PipelineId::DecalDoubleMultiply => Some("fs_decal_multiply"@),
        PipelineId::DecalPremul => Some("fs_decal_premul"@),
        PipelineId::DecalVector => Some("fs_decal_vector"@),
        _ => Some("fs"@),
    }
}

pub open spec fn text_of(s: Option<&'static str>) -> Option<Seq<char>> {
    match s {
        Some(t) => Some(t@),
        None => None,
    }
}

/// A description is that of the pipeline.
pub open spec fn describes(
    d: PipelineDesc,
    id: PipelineId,
    legacy_sky: bool,
    f: Formats,
) -> bool {
    &&& d.shader == shader_of(id, legacy_sky)
    &&& d.layout == layout_of(id)
    &&& d.vs@ == if is_decal(id) {
        "vs_decal"@
    } else {
        "vs"@
    }
    &&& text_of(d.fs) == fs_of(id)
    &&& d.blend == mode_of(id)
    &&& d.depth_write == writes_depth(id, legacy_sky)
    &&& d.depth_always == (is_sky(id) && legacy_sky)
    &&& d.cull_front == (id == PipelineId::ShadowH4)
    &&& d.bias_constant == if id == PipelineId::Shadow {
        2int
    } else {
        0int
    }
    &&& d.bias_slope == if id == PipelineId::Shadow {
        F32_TWO
    } else {
        0
    }
    &&& (d.vertex_attrs, d.instance_attrs) == if id == PipelineId::Water || id
        == PipelineId::Terrain {
        (SHORT_VERTEX_ATTRS, SHORT_INSTANCE_ATTRS)
    } else {
        (VERTEX_ATTRS, INSTANCE_ATTRS)
    }
    &&& d.color == if is_shadow(id) {
        None
    } else {
        Some(f.color)
    }
    &&& d.depth == f.depth
}

fn opaque(f: Formats, fs: &'static str) -> (d: PipelineDesc)
    ensures
        d == (PipelineDesc {
            shader: ShaderId::Mesh,
            layout: MaterialLayout::Mesh,
            vs: d.vs,
            fs: Some(fs),
            blend: BlendMode::Opaque,
            depth_write: true,
            depth_always: false,
            cull_front: false,
            bias_constant: 0,
            bias_slope: 0,
            vertex_attrs: VERTEX_ATTRS,
            instance_attrs: INSTANCE_ATTRS,
            color: Some(f.color),
            depth: f.depth,
        }),
        d.vs@ == "vs"@,
{
    PipelineDesc {
        shader: ShaderId::Mesh,
        layout: MaterialLayout::Mesh,
        vs: "vs",
        fs: Some(fs),
        blend: BlendMode::Opaque,
        depth_write: true,
        depth_always: false,
        cull_front: false,
        bias_constant: 0,
        bias_slope: 0,
        vertex_attrs: VERTEX_ATTRS,
        instance_attrs: INSTANCE_ATTRS,
        color: Some(f.color),
        depth: f.depth,
    }
}

/// A transparent mesh pipeline: depth-tested, nothing written to depth.
fn transparent(f: Formats, fs: &'static str, blend: BlendMode) -> (d: PipelineDesc)
    ensures
        d == (PipelineDesc {
            shader: ShaderId::Mesh,
            layout: MaterialLayout::Mesh,
            vs: d.vs,
            fs: Some(fs),
            blend,
            depth_write: false,
            depth_always: false,
            cull_front: false,
            bias_constant: 0,
            bias_slope: 0,
            vertex_attrs: VERTEX_ATTRS,
            instance_attrs: INSTANCE_ATTRS,
            color: Some(f.color),
            depth: f.depth,
        }),
        d.vs@ == "vs"@,
{
    let mut d: PipelineDesc = opaque(f, fs);
    d.blend = blend;
    d.depth_write = false;
    d
}

/// A decal pipeline: as a transparent one, with the vertices nudged towards the camera.
fn decal(f: Formats, fs: &'static str, blend: BlendMode) -> (d: PipelineDesc)
    ensures
        d == (PipelineDesc {
            shader: ShaderId::Mesh,
            layout: MaterialLayout::Mesh,
            vs: d.vs,
            fs: Some(fs),
            blend,
            depth_write: false,
            depth_always: false,
            cull_front: false,
            bias_constant: 0,
            bias_slope: 0,
            vertex_attrs: VERTEX_ATTRS,
            instance_attrs: INSTANCE_ATTRS,
            color: Some(f.color),
            depth: f.depth,
        }),
        d.vs@ == "vs_decal"@,
{
    let mut d: PipelineDesc = transparent(f, fs, blend);
    d.vs = "vs_decal";
    d
}

/// A sky pipeline. The legacy sky relies on submission order alone.
fn sky(f: Formats, blend: BlendMode, depth_write: bool, legacy_sky: bool) -> (d: PipelineDesc)
    ensures
        d == (PipelineDesc {
            shader: if legacy_sky {
                ShaderId::SkyLegacy
            } else {
                ShaderId::Sky
            },
            layout: MaterialLayout::Mesh,
            vs: d.vs,
            fs: d.fs,
            blend,
            depth_write: depth_write && !legacy_sky,
            depth_always: legacy_sky,
            cull_front: false,
            bias_constant: 0,
            bias_slope: 0,
            vertex_attrs: VERTEX_ATTRS,
            instance_attrs: INSTANCE_ATTRS,
            color: Some(f.color),
            depth: f.depth,
        }),
        d.vs@ == "vs"@,
        text_of(d.fs) == Some("fs"@),
{
    let mut d: PipelineDesc = transparent(f, "fs", blend);
    d.shader =
    if legacy_sky {
        ShaderId::SkyLegacy
    } else {
        ShaderId::Sky
    };
    d.depth_write = depth_write && !legacy_sky;
    d.depth_always = legacy_sky;
    d
}

/// A depth-only pipeline.
fn shadow(f: Formats, cull_front: bool, bias_constant: i32, bias_slope: u32) -> (d: PipelineDesc)
    ensures
        d == (PipelineDesc {
            shader: ShaderId::Shadow,
            layout: MaterialLayout::Shadow,
            vs: d.vs,
            fs: None,
            blend: BlendMode::Opaque,
            depth_write: true,
            depth_always: false,
            cull_front,
            bias_constant,
            bias_slope,
            vertex_attrs: VERTEX_ATTRS,
            instance_attrs: INSTANCE_ATTRS,
            color: None,
            depth: f.depth,
        }),
        d.vs@ == "vs"@,
{
    PipelineDesc {
        shader: ShaderId::Shadow,
        layout: MaterialLayout::Shadow,
        vs: "vs",
        fs: None,
        blend: BlendMode::Opaque,
        depth_write: true,
        depth_always: false,
        cull_front,
        bias_constant,
        bias_slope,
        vertex_attrs: VERTEX_ATTRS,
        instance_attrs: INSTANCE_ATTRS,
        color: None,
        depth: f.depth,
    }
}

/// The description of a pipeline.
pub fn pipeline_desc(id: PipelineId, legacy_sky: bool, f: Formats) -> (d: PipelineDesc)
    ensures
        describes(d, id, legacy_sky, f),
{
    match id {
        PipelineId::Mesh => opaque(f, "fs"),
        PipelineId::AlphaTest => opaque(f, "fs_alphatest"),
        PipelineId::Foliage => opaque(f, "fs_foliage"),
        PipelineId::Blend => transparent(f, "fs_blend", BlendMode::Alpha),
        PipelineId::BlendPremul => transparent(f, "fs_blend_premul", BlendMode::Premultiplied),
        PipelineId::BlendMultiply => transparent(f, "fs_blend_multiplicative", BlendMode::Multiply),
        PipelineId::BlendDoubleMultiply => transparent(
            f,
            "fs_blend_multiplicative",
            BlendMode::DoubleMultiply,
        ),
        PipelineId::Additive => transparent(f, "fs_holo", BlendMode::Additive),
        PipelineId::ParticleAdd => transparent(f, "fs_particle", BlendMode::Additive),
        PipelineId::ParticleAlpha => transparent(f, "fs_particle", BlendMode::Alpha),
        PipelineId::ParticlePremul => transparent(f, "fs_particle", BlendMode::Premultiplied),
        PipelineId::ParticleMultiply => transparent(f, "fs_particle", BlendMode::Multiply),
        PipelineId::HoloSolid => transparent(f, "fs_holo_solid", BlendMode::Alpha),
        PipelineId::Water => {
            let mut d: PipelineDesc = transparent(f, "fs", BlendMode::Premultiplied);
            d.shader = ShaderId::Water;
            d.layout = MaterialLayout::Water;
            d.vertex_attrs = SHORT_VERTEX_ATTRS;
            d.instance_attrs = SHORT_INSTANCE_ATTRS;
            d
        },
        PipelineId::Terrain => {
            let mut d: PipelineDesc = opaque(f, "fs");
            d.shader = ShaderId::Terrain;
            d.layout = MaterialLayout::Terrain;
            d.vertex_attrs = SHORT_VERTEX_ATTRS;
            d.instance_attrs = SHORT_INSTANCE_ATTRS;
            d
        },
        PipelineId::SkyOpaque => sky(f, BlendMode::Opaque, true, legacy_sky),
        PipelineId::SkyBlend => sky(f, BlendMode::Additive, false, legacy_sky),
        PipelineId::SkyMultiply => sky(f, BlendMode::Multiply, false, legacy_sky),
        PipelineId::SkyAlpha => sky(f, BlendMode::Alpha, false, legacy_sky),
        PipelineId::SkyPremul => sky(f, BlendMode::Premultiplied, false, legacy_sky),
        PipelineId::DecalAlpha => decal(f, "fs_decal", BlendMode::Alpha),
        PipelineId::DecalAdditive => decal(f, "fs_decal", BlendMode::AlphaAdditive),
        PipelineId::DecalMultiply => decal(f, "fs_decal_multiply", BlendMode::Multiply),
        PipelineId::DecalDoubleMultiply => decal(f, "fs_decal_multiply", BlendMode::DoubleMultiply),
        PipelineId::DecalPremul => decal(f, "fs_decal_premul", BlendMode::Premultiplied),
        PipelineId::DecalInvAlpha => decal(f, "fs_decal", BlendMode::InverseAlpha),
        PipelineId::DecalVector => decal(f, "fs_decal_vector", BlendMode::Alpha),
        PipelineId::Shadow => shadow(f, false, 2, F32_TWO),
        PipelineId::ShadowH4 => shadow(f, true, 0, 0),
    }
}

/// The place of a pipeline in the list of all pipelines.
pub open spec fn slot_of(id: PipelineId) -> int {
    match id {
        PipelineId::Mesh => 0,
        PipelineId::AlphaTest => 1,
        PipelineId::Foliage => 2,
        PipelineId::Blend => 3,
        PipelineId::BlendPremul => 4,
        PipelineId::BlendMultiply => 5,
        PipelineId::BlendDoubleMultiply => 6,
        PipelineId::Additive => 7,
        PipelineId::ParticleAdd => 8,
        PipelineId::ParticleAlpha => 9,
        PipelineId::ParticlePremul => 10,
        PipelineId::ParticleMultiply => 11,
        PipelineId::HoloSolid => 12,
        PipelineId::Water => 13,
        PipelineId::Terrain => 14,
        PipelineId::SkyOpaque => 15,
        PipelineId::SkyBlend => 16,
        PipelineId::SkyMultiply => 17,
        PipelineId::SkyAlpha => 18,
        PipelineId::SkyPremul => 19,
        PipelineId::DecalAlpha => 20,
        PipelineId::DecalAdditive => 21,
        PipelineId::DecalMultiply => 22,
        PipelineId::DecalDoubleMultiply => 23,
        PipelineId::DecalPremul => 24,
        PipelineId::DecalInvAlpha => 25,
        PipelineId::DecalVector => 26,
        PipelineId::Shadow => 27,
        PipelineId::ShadowH4 => 28,
    }
}

/// The place of a pipeline in the list of all pipelines.
pub fn slot(id: PipelineId) -> (n: usize)
    ensures
        n == slot_of(id),
        n < 29,
{
    match id {
        PipelineId::Mesh => 0,
        PipelineId::AlphaTest => 1,
        PipelineId::Foliage => 2,
        PipelineId::Blend => 3,
        PipelineId::BlendPremul => 4,
        PipelineId::BlendMultiply => 5,
        PipelineId::BlendDoubleMultiply => 6,
        PipelineId::Additive => 7,
        PipelineId::ParticleAdd => 8,
        PipelineId::ParticleAlpha => 9,
        PipelineId::ParticlePremul => 10,
        PipelineId::ParticleMultiply => 11,
        PipelineId::HoloSolid => 12,
        PipelineId::Water => 13,
        PipelineId::Terrain => 14,
        PipelineId::SkyOpaque => 15,
        PipelineId::SkyBlend => 16,
        PipelineId::SkyMultiply => 17,
        PipelineId::SkyAlpha => 18,
        PipelineId::SkyPremul => 19,
        PipelineId::DecalAlpha => 20,
        PipelineId::DecalAdditive => 21,
        PipelineId::DecalMultiply => 22,
        PipelineId::DecalDoubleMultiply => 23,
        PipelineId::DecalPremul => 24,
        PipelineId::DecalInvAlpha => 25,
        PipelineId::DecalVector => 26,
        PipelineId::Shadow => 27,
        PipelineId::ShadowH4 => 28,
    }
}

fn all_pipelines() -> (ids: Vec<PipelineId>)
    ensures
        ids@.len() == 29,
        forall|i: int| 0 <= i < 29 ==> slot_of(#[trigger] ids@[i]) == i,
{
    vec![
        PipelineId::Mesh,
        PipelineId::AlphaTest,
        PipelineId::Foliage,
        PipelineId::Blend,
        PipelineId::BlendPremul,
        PipelineId::BlendMultiply,
        PipelineId::BlendDoubleMultiply,
        PipelineId::Additive,
        PipelineId::ParticleAdd,
        PipelineId::ParticleAlpha,
        PipelineId::ParticlePremul,
        PipelineId::ParticleMultiply,
        PipelineId::HoloSolid,
        PipelineId::Water,
        PipelineId::Terrain,
        PipelineId::SkyOpaque,
        PipelineId::SkyBlend,
        PipelineId::SkyMultiply,
        PipelineId::SkyAlpha,
        PipelineId::SkyPremul,
        PipelineId::DecalAlpha,
        PipelineId::DecalAdditive,
        PipelineId::DecalMultiply,
        PipelineId::DecalDoubleMultiply,
        PipelineId::DecalPremul,
        PipelineId::DecalInvAlpha,
        PipelineId::DecalVector,
        PipelineId::Shadow,
        PipelineId::ShadowH4,
    ]
}

/// No pipeline reads attributes that the records do not have.
pub proof fn law_pipelines_read_existing_attributes(
    d: PipelineDesc,
    id: PipelineId,
    legacy_sky: bool,
    f: Formats,
)
    requires
        describes(d, id, legacy_sky, f),
    ensures
        d.vertex_attrs <= layout::vertex_attrs().len(),
        d.instance_attrs <= layout::instance_attrs().len(),
{
}

/// Nothing transparent ever occludes: no blending pipeline writes depth.
pub proof fn law_blending_pipelines_keep_depth(
    d: PipelineDesc,
    id: PipelineId,
    legacy_sky: bool,
    f: Formats,
)
    requires
        describes(d, id, legacy_sky, f),
        d.blend != BlendMode::Opaque,
    ensures
        !d.depth_write,
{
}

// ---- shader sources ---------------------------------------------------------------------------
/// The pieces of a shader source, in order. The lit shaders share the fog and the probe lookup;
/// meshes and terrain also the shadow lookup.
pub open spec fn parts_of(s: ShaderId) -> Seq<ShaderPart> {
    match s {
        ShaderId::Mesh => seq![
            ShaderPart::Fog,
            ShaderPart::ShadowSample,
            ShaderPart::GiFragment,
            ShaderPart::GiShared,
            ShaderPart::Mesh,
            ShaderPart::H4Mesh,
        ],
        ShaderId::Water => seq![
            ShaderPart::Fog,
            ShaderPart::GiFragment,
            ShaderPart::GiShared,
            ShaderPart::Water,
        ],
        ShaderId::Terrain => seq![
            ShaderPart::Fog,
            ShaderPart::ShadowSample,
            ShaderPart::GiFragment,
            ShaderPart::GiShared,
            ShaderPart::Terrain,
        ],
        ShaderId::Sky => seq![ShaderPart::Sky],
        ShaderId::SkyLegacy => seq![ShaderPart::SkyLegacy],
        ShaderId::Shadow => seq![ShaderPart::Shadow],
    }
}

/// The pieces of a shader source, in order.
pub fn shader_parts(s: ShaderId) -> (parts: Vec<ShaderPart>)
    ensures
        parts@ == parts_of(s),
{
    let parts: Vec<ShaderPart> = match s {
        ShaderId::Mesh => vec![
            ShaderPart::Fog,
            ShaderPart::ShadowSample,
            ShaderPart::GiFragment,
            ShaderPart::GiShared,
            ShaderPart::Mesh,
            ShaderPart::H4Mesh,
        ],
        ShaderId::Water => vec![
            ShaderPart::Fog,
            ShaderPart::GiFragment,
            ShaderPart::GiShared,
            ShaderPart::Water,
        ],
        ShaderId::Terrain => vec![
            ShaderPart::Fog,
            ShaderPart::ShadowSample,
            ShaderPart::GiFragment,
            ShaderPart::GiShared,
            ShaderPart::Terrain,
        ],
        ShaderId::Sky => vec![ShaderPart::Sky],
        ShaderId::SkyLegacy => vec![ShaderPart::SkyLegacy],
        ShaderId::Shadow => vec![ShaderPart::Shadow],
    };
    assert(parts@ =~= parts_of(s));
    parts
}

/// The declarations of the probe update, what it shares with the lookup, and the update itself.
pub open spec fn probe_sources() -> Seq<ShaderPart> {
    seq![ShaderPart::ProbeDecls, ShaderPart::GiShared, ShaderPart::ProbeUpdate]
}

/// The pieces of the probe update's source, in order.
pub fn probe_parts() -> (parts: Vec<ShaderPart>)
    ensures
        parts@ == probe_sources(),
{
    let parts: Vec<ShaderPart> = vec![
        ShaderPart::ProbeDecls,
        ShaderPart::GiShared,
        ShaderPart::ProbeUpdate,
    ];
    assert(parts@ =~= probe_sources());
    parts
}

/// How a setting is spelled in a shader source.
#[derive(Clone, Copy, Debug, PartialEq, Eq, Structural)]
pub enum FillKind {
    /// A whole number; 0 when nothing readable is set.
    Integer,
    /// A number with one decimal; 0.0 when nothing readable is set.
    OneDecimal,
    /// The text as it is; 0 when nothing is set.
    Verbatim,
    /// The first of two factors behind a comma, with four decimals; 0.5 where none is readable.
    FirstFactor,
    /// The second of them.
    SecondFactor,
    /// Always 0.
    Zero,
}

/// A placeholder of a shader source, and the setting that fills it.
#[derive(Clone, Copy, Debug)]
pub struct ShaderFill {
    pub placeholder: &'static str,
    pub setting: &'static str,
    pub kind: FillKind,
}

/// A fill as (placeholder, setting, kind).
pub open spec fn fill_row(f: ShaderFill) -> (Seq<char>, Seq<char>, FillKind) {
    (f.placeholder@, f.setting@, f.kind)
}

/// The placeholders of a render shader: the probe lookup's debug lane where it is part of the
/// source, and the lanes of the shader itself.
pub open spec fn fills_of(s: ShaderId) -> Seq<(Seq<char>, Seq<char>, FillKind)> {
    match s {
        ShaderId::Mesh => seq![
            ("__GI_DEBUG__"@, "HMS_RTGI_DEBUG"@, FillKind::Integer),
            ("__H4DBG__"@, "HMS_H4_SHADEDBG"@, FillKind::OneDecimal),
            ("__TDDBG__"@, "HMS_TDDBG"@, FillKind::OneDecimal),
            ("__MDBG__"@, "HMS_MDBG"@, FillKind::OneDecimal),
            ("__DECO_CX__"@, "HMS_DECO_CONTRAST"@, FillKind::FirstFactor),
            ("__DECO_CY__"@, "HMS_DECO_CONTRAST"@, FillKind::SecondFactor),
        ],
        ShaderId::Water => seq![
            ("__GI_DEBUG__"@, "HMS_RTGI_DEBUG"@, FillKind::Integer),
            ("__WDBG__"@, "HMS_WDBG"@, FillKind::Verbatim),
        ],
        ShaderId::Terrain => seq![
            ("__GI_DEBUG__"@, "HMS_RTGI_DEBUG"@, FillKind::Integer),
            ("__TDBG__"@, "HMS_TDBG"@, FillKind::Verbatim),
        ],
        ShaderId::Sky | ShaderId::SkyLegacy | ShaderId::Shadow => seq![],
    }
}

/// The placeholders of the probe update: the lookup's debug lane is off there.
pub open spec fn probe_fill_rows() -> Seq<(Seq<char>, Seq<char>, FillKind)> {
    seq![
        ("__GI_DEBUG__"@, ""@, FillKind::Zero),
        ("__GI_CDEBUG__"@, "HMS_RTGI_CDEBUG"@, FillKind::Integer),
    ]
}

/// What fills the placeholders of a render shader, in order.
pub fn shader_fills(s: ShaderId) -> (fills: Vec<ShaderFill>)
    ensures
        fills@.map_values(|f: ShaderFill| fill_row(f)) == fills_of(s),
{
    let gi: ShaderFill = ShaderFill {
        placeholder: "__GI_DEBUG__",
        setting: "HMS_RTGI_DEBUG",
        kind: FillKind::Integer,
    };
    let fills: Vec<ShaderFill> = match s {
        ShaderId::Mesh => vec![
            gi,
            ShaderFill {
                placeholder: "__H4DBG__",
                setting: "HMS_H4_SHADEDBG",
                kind: FillKind::OneDecimal,
            },
            ShaderFill {
                placeholder: "__TDDBG__",
                setting: "HMS_TDDBG",
                kind: FillKind::OneDecimal,
            },
            ShaderFill {
                placeholder: "__MDBG__",
                setting: "HMS_MDBG",
                kind: FillKind::OneDecimal,
            },
            ShaderFill {
                placeholder: "__DECO_CX__",
                setting: "HMS_DECO_CONTRAST",
                kind: FillKind::FirstFactor,
            },
            ShaderFill {
                placeholder: "__DECO_CY__",
                setting: "HMS_DECO_CONTRAST",
                kind: FillKind::SecondFactor,
            },
        ],
        ShaderId::Water => vec![
            gi,
            ShaderFill {
                placeholder: "__WDBG__",
                setting: "HMS_WDBG",
                kind: FillKind::Verbatim,
            },
        ],
        ShaderId::Terrain => vec![
            gi,
            ShaderFill {
                placeholder: "__TDBG__",
                setting: "HMS_TDBG",
                kind: FillKind::Verbatim,
            },
        ],
        ShaderId::Sky | ShaderId::SkyLegacy | ShaderId::Shadow => Vec::new(),
    };
    assert(fills@.map_values(|f: ShaderFill| fill_row(f)) =~= fills_of(s));
    fills
}

/// What fills the placeholders of the probe update, in order.
pub fn probe_fills() -> (fills: Vec<ShaderFill>)
    ensures
        fills@.map_values(|f: ShaderFill| fill_row(f)) == probe_fill_rows(),
{
    let fills: Vec<ShaderFill> = vec![
        ShaderFill { placeholder: "__GI_DEBUG__", setting: "", kind: FillKind::Zero },
        ShaderFill {
            placeholder: "__GI_CDEBUG__",
            setting: "HMS_RTGI_CDEBUG",
            kind: FillKind::Integer,
        },
    ];
    assert(fills@.map_values(|f: ShaderFill| fill_row(f)) =~= probe_fill_rows());
    fills
}

// ---- samplers ---------------------------------------------------------------------------------
#[derive(Clone, Copy, Debug, PartialEq, Eq, Structural)]
pub struct SamplerDesc {
    /// Repeat at the edges, rather than clamp.
    pub repeat: bool,
    /// Filter linearly within a level.
    pub linear: bool,
    /// Filter linearly between levels.
    pub linear_mips: bool,
    pub anisotropy: u16,
    /// Sample the top level only.
    pub top_level: bool,
}

/// Surfaces: trilinear and anisotropic. Lightmaps: the top level alone, bilinear unless the nearest
/// texel is asked for. Environment cubes: trilinear, clamped.
pub open spec fn sampler_of(s: SamplerId, lm_nearest: bool) -> SamplerDesc {
    match s {
        SamplerId::Mesh => SamplerDesc {
            repeat: true,
            linear: true,
            linear_mips: true,
            anisotropy: 16,
            top_level: false,
        },
        SamplerId::Lightmap => SamplerDesc {
            repeat: true,
            linear: !lm_nearest,
            linear_mips: false,
            anisotropy: 1,
            top_level: true,
        },
        SamplerId::Env => SamplerDesc {
            repeat: false,
            linear: true,
            linear_mips: true,
            anisotropy: 1,
            top_level: false,
        },
    }
}

/// Anisotropic sampling filters linearly throughout.
pub proof fn law_anisotropy_needs_linear_filters(s: SamplerId, lm_nearest: bool)
    ensures
        sampler_of(s, lm_nearest).anisotropy > 1 ==> sampler_of(s, lm_nearest).linear && sampler_of(
            s,
            lm_nearest,
        ).linear_mips,
{
}

/// The description of a sampler.
pub fn sampler_desc(s: SamplerId, lm_nearest: bool) -> (d: SamplerDesc)
    ensures
        d == sampler_of(s, lm_nearest),
{
    match s {
        SamplerId::Mesh => SamplerDesc {
            repeat: true,
            linear: true,
            linear_mips: true,
            anisotropy: 16,
            top_level: false,
        },
        SamplerId::Lightmap => SamplerDesc {
            repeat: true,
            linear: !lm_nearest,
            linear_mips: false,
            anisotropy: 1,
            top_level: true,
        },
        SamplerId::Env => SamplerDesc {
            repeat: false,
            linear: true,
            linear_mips: true,
            anisotropy: 1,
            top_level: false,
        },
    }
}

// ---- the renderer -----------------------------------------------------------------------------
/// Everything the renderer creates once: its pipelines, layouts and samplers.
pub struct MeshRenderer {
    pub legacy_sky: bool,
    pub formats: Formats,
    /// All pipelines, each at its slot.
    pub pipelines: Vec<PipelineDesc>,
    pub material: Vec<LayoutEntry>,
    pub water: Vec<LayoutEntry>,
    pub terrain: Vec<LayoutEntry>,
    pub vertex: Vec<Attr>,
    pub instance: Vec<Attr>,
    pub sampler: SamplerDesc,
    pub lm_sampler: SamplerDesc,
    pub env_sampler: SamplerDesc,
    /// Whether the stand-in textures and the captured cube exist.
    pub fallbacks: bool,
}

impl MeshRenderer {
    /// Every pipeline is described at its slot, and the layouts are the renderer's.
    pub open spec fn wf(&self) -> bool {
        &&& self.pipelines@.len() == 29
        &&& forall|id: PipelineId|
            #![trigger slot_of(id)]
            describes(self.pipelines@[slot_of(id)], id, self.legacy_sky, self.formats)
        &&& self.material@ == layout::material_entries()
        &&& self.water@ == layout::water_entries()
        &&& self.terrain@ == layout::terrain_entries()
        &&& self.vertex@ == layout::vertex_attrs()
        &&& self.instance@ == layout::instance_attrs()
        &&& self.sampler == sampler_of(SamplerId::Mesh, false)
        &&& self.env_sampler == sampler_of(SamplerId::Env, false)
    }

    /// The renderer, with the legacy sky selected by the text of its setting and the lightmap
    /// sampler by whether the nearest texel is asked for. All pipelines draw to the same formats.
    pub fn new(sky: Option<&str>, lm_nearest: bool, formats: Formats) -> (r: MeshRenderer)
        ensures
            r.wf(),
            r.legacy_sky == match sky {
                Some(t) => t@ != "0"@,
                None => false,
            },
            r.formats == formats,
            !r.fallbacks,
            r.lm_sampler == sampler_of(SamplerId::Lightmap, lm_nearest),
    {
        let legacy_sky: bool = config::sky_legacy(sky);
        let ids: Vec<PipelineId> = all_pipelines();
        let mut pipelines: Vec<PipelineDesc> = Vec::new();
        let mut i: usize = 0;
        while i < 29
            invariant
                i <= 29,
                ids@.len() == 29,
                pipelines@.len() == i,
                forall|k: int|
                    0 <= k < i ==> describes(#[trigger] pipelines@[k], ids@[k], legacy_sky, formats),
            decreases 29 - i,
        {
            pipelines.push(pipeline_desc(ids[i], legacy_sky, formats));
            i = i + 1;
        }
        proof {
            assert forall|id: PipelineId|
                #![trigger slot_of(id)]
                describes(pipelines@[slot_of(id)], id, legacy_sky, formats) by {
                let k = slot_of(id);
                assert(slot_of(ids@[k]) == k);
                assert(ids@[k] == id);
            }
        }
        MeshRenderer {
            legacy_sky,
            formats,
            pipelines,
            material: layout::material_layout(),
            water: layout::water_layout(),
            terrain: layout::terrain_layout(),
            vertex: layout::vertex_attributes(),
            instance: layout::instance_attributes(),
            sampler: sampler_desc(SamplerId::Mesh, false),
            lm_sampler: sampler_desc(SamplerId::Lightmap, lm_nearest),
            env_sampler: sampler_desc(SamplerId::Env, false),
            fallbacks: false,
        }
    }
}

// ---- what the pipelines do to the picture -----------------------------------------------------
/// The blend equation: the source times its factor plus the destination times its own. A zero
/// factor drops a side, a unit factor keeps it, the other side's value multiplies it, and the two
/// alpha factors add up to one.
pub proof fn law_blend_equation(c: BlendComponent, s: int, a: int, d: int, one: int)
    ensures
        c.src == BlendFactor::One && c.dst == BlendFactor::Zero ==> blended(c, s, a, d, one) == s
            * one,
        c.src == BlendFactor::Zero && c.dst == BlendFactor::One ==> blended(c, s, a, d, one) == d
            * one,
        c.src == BlendFactor::One && c.dst == BlendFactor::One ==> blended(c, s, a, d, one) == (s
            + d) * one,
        c.src == BlendFactor::Zero && c.dst == BlendFactor::Src ==> blended(c, s, a, d, one) == s
            * d,
        c.src == BlendFactor::Dst && c.dst == BlendFactor::Zero ==> blended(c, s, a, d, one) == s
            * d,
        c.src == BlendFactor::SrcAlpha && c.dst == BlendFactor::OneMinusSrcAlpha ==> {
            &&& blended(c, s, one, d, one) == s * one
            &&& blended(c, s, 0, d, one) == d * one
        },
        c.src == BlendFactor::OneMinusSrcAlpha && c.dst == BlendFactor::SrcAlpha ==> {
            &&& blended(c, s, one, d, one) == d * one
            &&& blended(c, s, 0, d, one) == s * one
        },
        factor_value(BlendFactor::SrcAlpha, s, a, d, one) + factor_value(
            BlendFactor::OneMinusSrcAlpha,
            s,
            a,
            d,
            one,
        ) == one,
        factor_value(BlendFactor::SrcAlpha, s, a, d, one) == a,
{
    assert(s * 0 == 0 && d * 0 == 0 && s * d == d * s && (s + d) * one == s * one + d * one)
        by (nonlinear_arith);
    assert(one - one == 0 && one - 0 == one);
}

/// What each pipeline leaves in the picture, for a source channel `s` with alpha `a` over the
/// picture's `b`, times `one`: opaque ones replace it, straight alpha mixes by coverage,
/// premultiplied alpha adds what is not covered, additive ones add everything, and multiplied ones
/// leave the product, once or twice.
pub proof fn law_pipelines_blend(
    p: PipelineDesc,
    id: PipelineId,
    legacy_sky: bool,
    f: Formats,
    s: int,
    a: int,
    b: int,
    one: int,
)
    requires
        describes(p, id, legacy_sky, f),
    ensures
        ({
            let r = mode_result(p.blend, s, a, b, one);
            match id {
                PipelineId::Mesh | PipelineId::AlphaTest | PipelineId::Foliage | PipelineId::Terrain
                | PipelineId::SkyOpaque | PipelineId::Shadow | PipelineId::ShadowH4 => r == s * one,
                PipelineId::Blend | PipelineId::HoloSolid | PipelineId::ParticleAlpha
                | PipelineId::SkyAlpha | PipelineId::DecalAlpha | PipelineId::DecalVector => r == s
                    * a + b * (one - a),
                PipelineId::BlendPremul | PipelineId::ParticlePremul | PipelineId::Water
                | PipelineId::SkyPremul | PipelineId::DecalPremul => r == s * one + b * (one - a),
                PipelineId::Additive | PipelineId::ParticleAdd | PipelineId::SkyBlend => r == s
                    * one + b * one,
                PipelineId::DecalAdditive => r == s * a + b * one,
                PipelineId::BlendMultiply | PipelineId::ParticleMultiply | PipelineId::SkyMultiply
                | PipelineId::DecalMultiply => r == s * b,
                PipelineId::BlendDoubleMultiply | PipelineId::DecalDoubleMultiply => r == 2 * (s
                    * b),
                PipelineId::DecalInvAlpha => r == s * (one - a) + b * a,
            }
        }),
{
}

/// Additive pipelines never darken, and leave the picture alone where the source is black.
pub proof fn law_additive_pipelines_only_add(
    p: PipelineDesc,
    id: PipelineId,
    legacy_sky: bool,
    f: Formats,
    s: int,
    a: int,
    b: int,
    one: int,
)
    requires
        describes(p, id, legacy_sky, f),
        id == PipelineId::Additive || id == PipelineId::ParticleAdd || id == PipelineId::SkyBlend
            || id == PipelineId::DecalAdditive,
        s >= 0,
        one >= a >= 0,
    ensures
        mode_result(p.blend, s, a, b, one) >= b * one,
        mode_result(p.blend, 0, a, b, one) == b * one,
        id != PipelineId::DecalAdditive ==> mode_result(p.blend, s, a, 0, one) == s * one,
{
    assert(s * one >= 0 && s * a >= 0 && 0 * one == 0 && 0 * a == 0) by (nonlinear_arith)
        requires
            s >= 0,
            one >= a >= 0,
    ;
}

/// Multiplied pipelines leave nothing of the source where the picture is black; a white source
/// leaves the picture as it was, or doubles it.
pub proof fn law_multiplied_pipelines_scale(
    p: PipelineDesc,
    id: PipelineId,
    legacy_sky: bool,
    f: Formats,
    s: int,
    a: int,
    b: int,
    one: int,
)
    requires
        describes(p, id, legacy_sky, f),
        id == PipelineId::BlendMultiply || id == PipelineId::ParticleMultiply || id
            == PipelineId::SkyMultiply || id == PipelineId::DecalMultiply || id
            == PipelineId::BlendDoubleMultiply || id == PipelineId::DecalDoubleMultiply,
    ensures
        mode_result(p.blend, s, a, 0, one) == 0,
        mode_result(p.blend, 0, a, b, one) == 0,
        id == PipelineId::BlendDoubleMultiply || id == PipelineId::DecalDoubleMultiply
            ==> mode_result(p.blend, one, a, b, one) == 2 * (b * one),
        id != PipelineId::BlendDoubleMultiply && id != PipelineId::DecalDoubleMultiply
            ==> mode_result(p.blend, one, a, b, one) == b * one,
{
    assert(s * 0 == 0 && 0 * b == 0 && one * b == b * one) by (nonlinear_arith);
}

/// Full coverage shows the source alone and no coverage the picture alone; with inverse alpha it
/// is the other way round.
pub proof fn law_alpha_pipelines_mix(
    p: PipelineDesc,
    id: PipelineId,
    legacy_sky: bool,
    f: Formats,
    s: int,
    b: int,
    one: int,
)
    requires
        describes(p, id, legacy_sky, f),
    ensures
        id == PipelineId::Blend || id == PipelineId::HoloSolid || id == PipelineId::ParticleAlpha
            || id == PipelineId::SkyAlpha || id == PipelineId::DecalAlpha || id
            == PipelineId::DecalVector ==> {
            &&& mode_result(p.blend, s, one, b, one) == s * one
            &&& mode_result(p.blend, s, 0, b, one) == b * one
        },
        id == PipelineId::BlendPremul || id == PipelineId::ParticlePremul || id == PipelineId::Water
            || id == PipelineId::SkyPremul || id == PipelineId::DecalPremul ==> {
            &&& mode_result(p.blend, s, one, b, one) == s * one
            &&& mode_result(p.blend, 0, 0, b, one) == b * one
            &&& mode_result(p.blend, s, 0, b, one) == s * one + b * one
        },
        id == PipelineId::DecalInvAlpha ==> {
            &&& mode_result(p.blend, s, 0, b, one) == s * one
            &&& mode_result(p.blend, s, one, b, one) == b * one
        },
        mode_keeps_coverage(p.blend) <==> (id == PipelineId::Blend || id == PipelineId::HoloSolid
            || id == PipelineId::ParticleAlpha || id == PipelineId::SkyAlpha || id
            == PipelineId::DecalAlpha || id == PipelineId::DecalVector || id
            == PipelineId::BlendPremul || id == PipelineId::ParticlePremul || id
            == PipelineId::Water || id == PipelineId::SkyPremul || id == PipelineId::DecalPremul),
{
    assert(b * (one - one) == 0 && s * 0 == 0 && b * 0 == 0 && 0 * one == 0 && s * (one - one) == 0)
        by (nonlinear_arith);
    assert(one - 0 == one);
}

/// Depth: the opaque surfaces, the terrain and the shadow casters write it, nothing transparent
/// does, and the sky only where it is solid and not the legacy one. Only the legacy sky is drawn
/// regardless of what is in front of it.
pub proof fn law_pipeline_depth(
    p: PipelineDesc,
    id: PipelineId,
    legacy_sky: bool,
    f: Formats,
)
    requires
        describes(p, id, legacy_sky, f),
    ensures
        id == PipelineId::Mesh || id == PipelineId::AlphaTest || id == PipelineId::Foliage || id
            == PipelineId::Terrain || id == PipelineId::Shadow || id == PipelineId::ShadowH4
            ==> p.depth_write,
        id == PipelineId::SkyOpaque ==> p.depth_write == !legacy_sky,
        p.depth_write ==> id == PipelineId::Mesh || id == PipelineId::AlphaTest || id
            == PipelineId::Foliage || id == PipelineId::Terrain || id == PipelineId::Shadow || id
            == PipelineId::ShadowH4 || id == PipelineId::SkyOpaque,
        p.depth_always <==> legacy_sky && (p.shader == ShaderId::SkyLegacy),
        p.shader == ShaderId::SkyLegacy || p.shader == ShaderId::Sky <==> id
            == PipelineId::SkyOpaque || id == PipelineId::SkyBlend || id == PipelineId::SkyMultiply
            || id == PipelineId::SkyAlpha || id == PipelineId::SkyPremul,
        p.shader == ShaderId::SkyLegacy ==> legacy_sky,
        p.shader == ShaderId::Sky ==> !legacy_sky,
        p.cull_front <==> id == PipelineId::ShadowH4,
        p.bias_constant != 0 <==> id == PipelineId::Shadow,
        id == PipelineId::Shadow ==> p.bias_constant == 2 && p.bias_slope == 0x4000_0000,
        id != PipelineId::Shadow ==> p.bias_slope == 0,
        p.depth == f.depth,
        id == PipelineId::Shadow || id == PipelineId::ShadowH4 ==> p.color is None && p.fs is None,
        id != PipelineId::Shadow && id != PipelineId::ShadowH4 ==> p.color == Some(f.color)
            && p.fs is Some,
{
}

/// Which shader a pipeline runs, over which bind group, from which entry points, and how much of
/// the records it reads.
pub proof fn law_pipeline_entry_points(
    p: PipelineDesc,
    id: PipelineId,
    legacy_sky: bool,
    f: Formats,
)
    requires
        describes(p, id, legacy_sky, f),
    ensures
        match id {
            PipelineId::Water => p.shader == ShaderId::Water && p.layout == MaterialLayout::Water
                && p.vertex_attrs == 6 && p.instance_attrs == 9,
            PipelineId::Terrain => p.shader == ShaderId::Terrain && p.layout
                == MaterialLayout::Terrain && p.vertex_attrs == 6 && p.instance_attrs == 9,
            PipelineId::Shadow | PipelineId::ShadowH4 => p.shader == ShaderId::Shadow && p.layout
                == MaterialLayout::Shadow && p.vertex_attrs == 7 && p.instance_attrs == 25,
            PipelineId::SkyOpaque | PipelineId::SkyBlend | PipelineId::SkyMultiply
            | PipelineId::SkyAlpha | PipelineId::SkyPremul => p.layout == MaterialLayout::Mesh
                && p.vertex_attrs == 7 && p.instance_attrs == 25,
            _ => p.shader == ShaderId::Mesh && p.layout == MaterialLayout::Mesh && p.vertex_attrs
                == 7 && p.instance_attrs == 25,
        },
        match id {
            PipelineId::DecalAlpha | PipelineId::DecalAdditive | PipelineId::DecalMultiply
            | PipelineId::DecalDoubleMultiply | PipelineId::DecalPremul | PipelineId::DecalInvAlpha
            | PipelineId::DecalVector => p.vs@ == "vs_decal"@,
            _ => p.vs@ == "vs"@,
        },
        p.fs matches Some(t) ==> match id {
            PipelineId::AlphaTest => t@ == "fs_alphatest"@,
            PipelineId::Foliage => t@ == "fs_foliage"@,
            PipelineId::Blend => t@ == "fs_blend"@,
            PipelineId::BlendPremul => t@ == "fs_blend_premul"@,
            PipelineId::BlendMultiply => t@ == "fs_blend_multiplicative"@,
            PipelineId::BlendDoubleMultiply => t@ == "fs_blend_multiplicative"@,
            PipelineId::Additive => t@ == "fs_holo"@,
            PipelineId::HoloSolid => t@ == "fs_holo_solid"@,
            PipelineId::ParticleAdd => t@ == "fs_particle"@,
            PipelineId::ParticleAlpha => t@ == "fs_particle"@,
            PipelineId::ParticlePremul => t@ == "fs_particle"@,
            PipelineId::ParticleMultiply => t@ == "fs_particle"@,
            PipelineId::DecalAlpha => t@ == "fs_decal"@,
            PipelineId::DecalAdditive => t@ == "fs_decal"@,
            PipelineId::DecalInvAlpha => t@ == "fs_decal"@,
            PipelineId::DecalMultiply => t@ == "fs_decal_multiply"@,
            PipelineId::DecalDoubleMultiply => t@ == "fs_decal_multiply"@,
            PipelineId::DecalPremul => t@ == "fs_decal_premul"@,
            PipelineId::DecalVector => t@ == "fs_decal_vector"@,
            _ => t@ == "fs"@,
        },
{
}

/// No two pipelines share a slot, and every slot is one of the renderer's.
pub proof fn law_slots_are_distinct(a: PipelineId, b: PipelineId)
    ensures
        slot_of(a) == slot_of(b) ==> a == b,
        0 <= slot_of(a) < 29,
{
}

/// A shader source ends in its own pieces. The lit ones begin with the fog and hold the probe
/// lookup, its shared half directly behind the other; those that receive shadows look them up
/// behind the fog. Nothing occurs twice.
pub proof fn law_shader_sources(s: ShaderId, i: int, j: int)
    requires
        0 <= i < parts_of(s).len(),
        0 <= j < parts_of(s).len(),
    ensures
        i != j ==> parts_of(s)[i] != parts_of(s)[j],
        parts_of(s).last() == match s {
            ShaderId::Mesh => ShaderPart::H4Mesh,
            ShaderId::Water => ShaderPart::Water,
            ShaderId::Terrain => ShaderPart::Terrain,
            ShaderId::Sky => ShaderPart::Sky,
            ShaderId::SkyLegacy => ShaderPart::SkyLegacy,
            ShaderId::Shadow => ShaderPart::Shadow,
        },
        parts_of(s)[i] == ShaderPart::Fog <==> i == 0 && (s == ShaderId::Mesh || s
            == ShaderId::Water || s == ShaderId::Terrain),
        parts_of(s)[i] == ShaderPart::ShadowSample <==> i == 1 && (s == ShaderId::Mesh || s
            == ShaderId::Terrain),
        parts_of(s)[i] == ShaderPart::GiFragment ==> parts_of(s)[i + 1] == ShaderPart::GiShared,
        parts_of(s)[i] == ShaderPart::GiShared ==> parts_of(s)[i - 1] == ShaderPart::GiFragment,
        s == ShaderId::Mesh ==> parts_of(s).len() == 6 && parts_of(s)[3] == ShaderPart::GiShared
            && parts_of(s)[4] == ShaderPart::Mesh,
        s == ShaderId::Water ==> parts_of(s).len() == 4 && parts_of(s)[2] == ShaderPart::GiShared,
        s == ShaderId::Terrain ==> parts_of(s).len() == 5 && parts_of(s)[3] == ShaderPart::GiShared,
        s == ShaderId::Sky || s == ShaderId::SkyLegacy || s == ShaderId::Shadow ==> parts_of(
            s,
        ).len() == 1,
{
}

/// Every placeholder is filled from its own setting, in its own spelling: the debug lane of the
/// probe lookup in every lit source, and the lanes of each source; nothing in the others.
pub proof fn law_placeholders_have_their_settings(s: ShaderId, i: int)
    requires
        0 <= i < fills_of(s).len(),
    ensures
        s == ShaderId::Mesh || s == ShaderId::Water || s == ShaderId::Terrain,
        s == ShaderId::Mesh ==> fills_of(s).len() == 6,
        s != ShaderId::Mesh ==> fills_of(s).len() == 2,
        i == 0 ==> fills_of(s)[i] == ("__GI_DEBUG__"@, "HMS_RTGI_DEBUG"@, FillKind::Integer),
        i == 1 && s == ShaderId::Water ==> fills_of(s)[i] == (
            "__WDBG__"@,
            "HMS_WDBG"@,
            FillKind::Verbatim,
        ),
        i == 1 && s == ShaderId::Terrain ==> fills_of(s)[i] == (
            "__TDBG__"@,
            "HMS_TDBG"@,
            FillKind::Verbatim,
        ),
        i == 1 && s == ShaderId::Mesh ==> fills_of(s)[i] == (
            "__H4DBG__"@,
            "HMS_H4_SHADEDBG"@,
            FillKind::OneDecimal,
        ),
        i == 2 ==> fills_of(s)[i] == ("__TDDBG__"@, "HMS_TDDBG"@, FillKind::OneDecimal),
        i == 3 ==> fills_of(s)[i] == ("__MDBG__"@, "HMS_MDBG"@, FillKind::OneDecimal),
        i == 4 ==> fills_of(s)[i] == (
            "__DECO_CX__"@,
            "HMS_DECO_CONTRAST"@,
            FillKind::FirstFactor,
        ),
        i == 5 ==> fills_of(s)[i] == (
            "__DECO_CY__"@,
            "HMS_DECO_CONTRAST"@,
            FillKind::SecondFactor,
        ),
{
}

/// The probe update is declared before what it shares with the lookup, and comes last; its own
/// debug lane is set apart from the lookup's, which is off.
pub proof fn law_probe_source()
    ensures
        probe_sources().len() == 3,
        probe_sources()[0] == ShaderPart::ProbeDecls,
        probe_sources()[1] == ShaderPart::GiShared,
        probe_sources()[2] == ShaderPart::ProbeUpdate,
        probe_fill_rows().len() == 2,
        probe_fill_rows()[0].0 == "__GI_DEBUG__"@ && probe_fill_rows()[0].2 == FillKind::Zero,
        probe_fill_rows()[1] == ("__GI_CDEBUG__"@, "HMS_RTGI_CDEBUG"@, FillKind::Integer),
{
}

/// How the samplers read: surfaces repeat, with every filter on; lightmaps repeat and read the top
/// level alone, blended unless the nearest texel is asked for; cubes are clamped and blended.
pub proof fn law_samplers(lm_nearest: bool)
    ensures
        ({
            let m = sampler_of(SamplerId::Mesh, lm_nearest);
            let l = sampler_of(SamplerId::Lightmap, lm_nearest);
            let e = sampler_of(SamplerId::Env, lm_nearest);
            &&& m.repeat && m.linear && m.linear_mips && !m.top_level && m.anisotropy == 16
            &&& l.repeat && l.linear == !lm_nearest && !l.linear_mips && l.top_level
                && l.anisotropy == 1
            &&& !e.repeat && e.linear && e.linear_mips && !e.top_level && e.anisotropy == 1
        }),
{
}

/// What each pipeline leaves of the picture's alpha `d` under a source of alpha `a`: where
/// transparency is composited, covering adds to what is covered and never takes any away; every
/// other pipeline leaves the source's alpha.
pub proof fn law_pipelines_cover(
    p: PipelineDesc,
    id: PipelineId,
    legacy_sky: bool,
    f: Formats,
    a: int,
    d: int,
    one: int,
)
    requires
        describes(p, id, legacy_sky, f),
        0 <= a <= one,
        0 <= d <= one,
    ensures
        match id {
            PipelineId::Blend | PipelineId::HoloSolid | PipelineId::ParticleAlpha
            | PipelineId::SkyAlpha | PipelineId::DecalAlpha | PipelineId::DecalVector
            | PipelineId::BlendPremul | PipelineId::ParticlePremul | PipelineId::Water
            | PipelineId::SkyPremul | PipelineId::DecalPremul => {
                &&& coverage(p.blend, a, d, one) == one * one - (one - a) * (one - d)
                &&& coverage(p.blend, a, d, one) >= d * one
                &&& coverage(p.blend, a, d, one) >= a * one
            },
            _ => coverage(p.blend, a, d, one) == a * one,
        },
{
    assert(a * one + d * (one - a) == one * one - (one - a) * (one - d) && d * (one - a) >= 0 && a
        * one + d * (one - a) >= d * one) by (nonlinear_arith)
        requires
            0 <= a <= one,
            0 <= d <= one,
    ;
}

} // verus!
