//! Bind-group layouts and vertex layouts shared by the pipelines and the uploads.

use vstd::prelude::*;

verus! {

// ---- bind groups ------------------------------------------------------------------------------
/// What a binding slot takes.
#[derive(Clone, Copy, Debug, PartialEq, Eq, Structural)]
pub enum BindKind {
    Texture2d,
    TextureCube,
    Sampler,
    Uniform,
    StorageRead,
    StorageReadWrite,
}

/// The shader stage that a slot is visible to.
#[derive(Clone, Copy, Debug, PartialEq, Eq, Structural)]
pub enum Stage {
    Fragment,
    Compute,
}

#[derive(Clone, Copy, Debug, PartialEq, Eq, Structural)]
pub struct LayoutEntry {
    pub binding: u32,
    pub kind: BindKind,
    pub stage: Stage,
}

/// A flat texture: one of the caller's views, or a constant single-texel fallback.
#[derive(Clone, Copy, Debug, PartialEq, Eq, Structural)]
pub enum Tex {
    View(u32),
    /// (0, 0, 0, 255)
    Black,
    /// (128, 128, 128, 255)
    Grey,
    /// (128, 128, 255, 255), the unbent normal
    Flat,
    /// a texture that comes with the material, by its number
    Own(u32),
    /// never written, so all zero
    Blank,
}

/// A cube: one of the caller's views, or the captured sky.
#[derive(Clone, Copy, Debug, PartialEq, Eq, Structural)]
pub enum Cube {
    View(u32),
    Captured,
}

#[derive(Clone, Copy, Debug, PartialEq, Eq, Structural)]
pub enum SamplerId {
    Mesh,
    Lightmap,
    Env,
}

#[derive(Clone, Copy, Debug, PartialEq, Eq, Structural)]
pub enum Resource {
    Texture(Tex),
    Cube(Cube),
    Sampler(SamplerId),
    /// one of the caller's samplers
    GivenSampler(u32),
    Uniform,
}

#[derive(Clone, Copy, Debug, PartialEq, Eq, Structural)]
pub struct Binding {
    pub binding: u32,
    pub resource: Resource,
}

/// The resource is of the kind that the slot takes.
pub open spec fn fits(e: LayoutEntry, b: Binding) -> bool {
    &&& e.binding == b.binding
    &&& match b.resource {
        Resource::Texture(_) => e.kind == BindKind::Texture2d,
        Resource::Cube(_) => e.kind == BindKind::TextureCube,
        Resource::Sampler(_) => e.kind == BindKind::Sampler,
        Resource::GivenSampler(_) => e.kind == BindKind::Sampler,
        Resource::Uniform => e.kind == BindKind::Uniform,
    }
}

/// Every slot of a layout has one resource of its kind, in order.
pub open spec fn fill(layout: Seq<LayoutEntry>, bindings: Seq<Binding>) -> bool {
    &&& layout.len() == bindings.len()
    &&& forall|i: int| 0 <= i < layout.len() ==> fits(#[trigger] layout[i], bindings[i])
}

/// Slots of a mesh material: textures but for the samplers at 1, 7 and 11 and the cube at 10.
pub open spec fn material_entries() -> Seq<LayoutEntry> {
    Seq::new(
        17,
        |b: int|
            LayoutEntry {
                binding: b as u32,
                stage: Stage::Fragment,
                kind: if b == 1 || b == 7 || b == 11 {
                    BindKind::Sampler
                } else if b == 10 {
                    BindKind::TextureCube
                } else {
                    BindKind::Texture2d
                },
            },
    )
}

/// Slots of a water material: 0 to 4 and 10 to 17.
pub open spec fn water_entries() -> Seq<LayoutEntry> {
    Seq::new(
        13,
        |i: int|
            {
                let b = if i < 5 {
                    i
                } else {
                    i + 5
                };
                LayoutEntry {
                    binding: b as u32,
                    stage: Stage::Fragment,
                    kind: if b == 1 || b == 11 || b == 15 {
                        BindKind::Sampler
                    } else if b == 2 {
                        BindKind::Uniform
                    } else if b == 10 {
                        BindKind::TextureCube
                    } else {
                        BindKind::Texture2d
                    },
                }
            },
    )
}

/// Slots of a terrain material: textures but for the samplers at 5 and 21 and the uniform at 6.
pub open spec fn terrain_entries() -> Seq<LayoutEntry> {
    Seq::new(
        24,
        |b: int|
            LayoutEntry {
                binding: b as u32,
                stage: Stage::Fragment,
                kind: if b == 5 || b == 21 {
                    BindKind::Sampler
                } else if b == 6 {
                    BindKind::Uniform
                } else {
                    BindKind::Texture2d
                },
            },
    )
}

/// Slots of the probe update: six scene buffers, the parameters, the two probe buffers, and the
/// sky cube with its sampler.
pub open spec fn probe_entries() -> Seq<LayoutEntry> {
    Seq::new(
        11,
        |b: int|
            LayoutEntry {
                binding: b as u32,
                stage: Stage::Compute,
                kind: if b < 6 {
                    BindKind::StorageRead
                } else if b == 6 {
                    BindKind::Uniform
                } else if b < 9 {
                    BindKind::StorageReadWrite
                } else if b == 9 {
                    BindKind::TextureCube
                } else {
                    BindKind::Sampler
                },
            },
    )
}

fn material_kind(b: u32) -> (k: BindKind)
    requires
        b < 17,
    ensures
        k == material_entries()[b as int].kind,
{
    match b {
        1 | 7 | 11 => BindKind::Sampler,
        10 => BindKind::TextureCube,
        _ => BindKind::Texture2d,
    }
}

fn terrain_kind(b: u32) -> (k: BindKind)
    requires
        b < 24,
    ensures
        k == terrain_entries()[b as int].kind,
{
    match b {
        5 | 21 => BindKind::Sampler,
        6 => BindKind::Uniform,
        _ => BindKind::Texture2d,
    }
}

/// The layout of a mesh material.
pub fn material_layout() -> (l: Vec<LayoutEntry>)
    ensures
        l@ == material_entries(),
{
    let mut l: Vec<LayoutEntry> = Vec::new();
    let mut b: u32 = 0;
    while b < 17
        invariant
            b <= 17,
            l@ == material_entries().take(b as int),
        decreases 17 - b,
    {
        l.push(LayoutEntry { binding: b, kind: material_kind(b), stage: Stage::Fragment });
        b = b + 1;
        assert(l@ =~= material_entries().take(b as int));
    }
    assert(l@ =~= material_entries());
    l
}

/// The layout of a terrain material.
pub fn terrain_layout() -> (l: Vec<LayoutEntry>)
    ensures
        l@ == terrain_entries(),
{
    let mut l: Vec<LayoutEntry> = Vec::new();
    let mut b: u32 = 0;
    while b < 24
        invariant
            b <= 24,
            l@ == terrain_entries().take(b as int),
        decreases 24 - b,
    {
        l.push(LayoutEntry { binding: b, kind: terrain_kind(b), stage: Stage::Fragment });
        b = b + 1;
        assert(l@ =~= terrain_entries().take(b as int));
    }
    assert(l@ =~= terrain_entries());
    l
}

/// The layout of a water material.
pub fn water_layout() -> (l: Vec<LayoutEntry>)
    ensures
        l@ == water_entries(),
{
    let l: Vec<LayoutEntry> = vec![
        LayoutEntry { binding: 0, kind: BindKind::Texture2d, stage: Stage::Fragment },
        LayoutEntry { binding: 1, kind: BindKind::Sampler, stage: Stage::Fragment },
        LayoutEntry { binding: 2, kind: BindKind::Uniform, stage: Stage::Fragment },
        LayoutEntry { binding: 3, kind: BindKind::Texture2d, stage: Stage::Fragment },
        LayoutEntry { binding: 4, kind: BindKind::Texture2d, stage: Stage::Fragment },
        LayoutEntry { binding: 10, kind: BindKind::TextureCube, stage: Stage::Fragment },
        LayoutEntry { binding: 11, kind: BindKind::Sampler, stage: Stage::Fragment },
        LayoutEntry { binding: 12, kind: BindKind::Texture2d, stage: Stage::Fragment },
        LayoutEntry { binding: 13, kind: BindKind::Texture2d, stage: Stage::Fragment },
        LayoutEntry { binding: 14, kind: BindKind::Texture2d, stage: Stage::Fragment },
        LayoutEntry { binding: 15, kind: BindKind::Sampler, stage: Stage::Fragment },
        LayoutEntry { binding: 16, kind: BindKind::Texture2d, stage: Stage::Fragment },
        LayoutEntry { binding: 17, kind: BindKind::Texture2d, stage: Stage::Fragment },
    ];
    assert(l@ =~= water_entries());
    l
}

/// The layout of the probe update.
pub fn probe_layout() -> (l: Vec<LayoutEntry>)
    ensures
        l@ == probe_entries(),
{
    let l: Vec<LayoutEntry> = vec![
        LayoutEntry { binding: 0, kind: BindKind::StorageRead, stage: Stage::Compute },
        LayoutEntry { binding: 1, kind: BindKind::StorageRead, stage: Stage::Compute },
        LayoutEntry { binding: 2, kind: BindKind::StorageRead, stage: Stage::Compute },
        LayoutEntry { binding: 3, kind: BindKind::StorageRead, stage: Stage::Compute },
        LayoutEntry { binding: 4, kind: BindKind::StorageRead, stage: Stage::Compute },
        LayoutEntry { binding: 5, kind: BindKind::StorageRead, stage: Stage::Compute },
        LayoutEntry { binding: 6, kind: BindKind::Uniform, stage: Stage::Compute },
        LayoutEntry { binding: 7, kind: BindKind::StorageReadWrite, stage: Stage::Compute },
        LayoutEntry { binding: 8, kind: BindKind::StorageReadWrite, stage: Stage::Compute },
        LayoutEntry { binding: 9, kind: BindKind::TextureCube, stage: Stage::Compute },
        LayoutEntry { binding: 10, kind: BindKind::Sampler, stage: Stage::Compute },
    ];
    assert(l@ =~= probe_entries());
    l
}

// ---- vertex attributes ------------------------------------------------------------------------
/// Words of one vertex.
pub const VERTEX_WORDS: usize = 21;

/// Words of one instance.
pub const INSTANCE_WORDS: usize = 97;

#[derive(Clone, Copy, Debug, PartialEq, Eq, Structural)]
pub enum AttrFormat {
    Float,
    Float2,
    Float3,
    Float4,
    Uint4,
}

#[derive(Clone, Copy, Debug, PartialEq, Eq, Structural)]
pub struct Attr {
    pub format: AttrFormat,
    pub offset: u32,
    pub location: u32,
}

pub open spec fn attr_words(f: AttrFormat) -> int {
    match f {
        AttrFormat::Float => 1,
        AttrFormat::Float2 => 2,
        AttrFormat::Float3 => 3,
        AttrFormat::Float4 => 4,
        AttrFormat::Uint4 => 4,
    }
}

/// Position, normal, texture coordinates, colour, sway, lightmap coordinates, tangent.
pub open spec fn vertex_attrs() -> Seq<Attr> {
    seq![
        Attr { format: AttrFormat::Float3, offset: 0, location: 0 },
        Attr { format: AttrFormat::Float3, offset: 12, location: 1 },
        Attr { format: AttrFormat::Float2, offset: 24, location: 2 },
        Attr { format: AttrFormat::Float4, offset: 32, location: 3 },
        Attr { format: AttrFormat::Float3, offset: 48, location: 9 },
        Attr { format: AttrFormat::Float2, offset: 60, location: 13 },
        Attr { format: AttrFormat::Float4, offset: 68, location: 22 },
    ]
}

/// The location of instance attribute `i`: the locations that the vertex attributes leave free, in
/// ascending order.
pub open spec fn instance_location(i: int) -> int {
    if i < 5 {
        i + 4
    } else if i < 8 {
        i + 5
    } else if i < 16 {
        i + 6
    } else {
        i + 7
    }
}

/// The byte offset of instance attribute `i`: four words each, but for the single word of
/// attribute 14.
pub open spec fn instance_offset(i: int) -> int {
    if i <= 14 {
        16 * i
    } else {
        16 * i - 12
    }
}

/// The model matrix (four vectors) and the per-material and per-object lanes.
pub open spec fn instance_attrs() -> Seq<Attr> {
    Seq::new(
        25,
        |i: int|
            Attr {
                format: if i == 14 {
                    AttrFormat::Float
                } else if i == 24 {
                    AttrFormat::Uint4
                } else {
                    AttrFormat::Float4
                },
                offset: instance_offset(i) as u32,
                location: instance_location(i) as u32,
            },
    )
}

/// Attributes of a vertex and of an instance.
pub const VERTEX_ATTRS: usize = 7;

pub const INSTANCE_ATTRS: usize = 25;

/// Attributes of the water and terrain pipelines: those up to the lightmap lanes.
pub const SHORT_VERTEX_ATTRS: usize = 6;

pub const SHORT_INSTANCE_ATTRS: usize = 9;

/// The attributes follow each other without gaps and fill the record.
pub open spec fn packed(attrs: Seq<Attr>, words: int) -> bool {
    &&& attrs.len() > 0
    &&& attrs[0].offset == 0
    &&& forall|i: int|
        0 <= i < attrs.len() - 1 ==> #[trigger] attrs[i].offset + 4 * attr_words(attrs[i].format)
            == attrs[i + 1].offset
    &&& attrs.last().offset + 4 * attr_words(attrs.last().format) == 4 * words
}

/// Both vertex records are read without gaps, and to their ends.
pub proof fn law_attributes_are_packed()
    ensures
        packed(vertex_attrs(), VERTEX_WORDS as int),
        packed(instance_attrs(), INSTANCE_WORDS as int),
{
}

/// All thirty-two locations are in use, each by one attribute: the vertex record holds those of
/// its seven attributes, the instance record all others.
pub proof fn law_locations_are_used_once(l: int)
    requires
        0 <= l < 32,
    ensures
        (exists|i: int| 0 <= i < 7 && #[trigger] vertex_attrs()[i].location == l) <==> !(exists|
            j: int,
        |
            0 <= j < 25 && #[trigger] instance_attrs()[j].location == l),
        forall|i: int, k: int|
            0 <= i < k < 7 ==> #[trigger] vertex_attrs()[i].location
                != #[trigger] vertex_attrs()[k].location,
        forall|i: int, k: int|
            0 <= i < k < 25 ==> #[trigger] instance_attrs()[i].location
                != #[trigger] instance_attrs()[k].location,
{
    let v = vertex_attrs();
    let w = instance_attrs();
    assert(v[0].location == 0 && v[1].location == 1 && v[2].location == 2 && v[3].location == 3
        && v[4].location == 9 && v[5].location == 13 && v[6].location == 22);
    if l == 0 || l == 1 || l == 2 || l == 3 || l == 9 || l == 13 || l == 22 {
        assert forall|j: int| 0 <= j < 25 implies #[trigger] w[j].location != l by {}
    } else {
        let j = if l < 9 {
            l - 4
        } else if l < 13 {
            l - 5
        } else if l < 22 {
            l - 6
        } else {
            l - 7
        };
        assert(0 <= j < 25);
        assert(w[j].location == l);
    }
}

/// The attributes of a vertex.
pub fn vertex_attributes() -> (a: Vec<Attr>)
    ensures
        a@ == vertex_attrs(),
{
    let a: Vec<Attr> = vec![
        Attr { format: AttrFormat::Float3, offset: 0, location: 0 },
        Attr { format: AttrFormat::Float3, offset: 12, location: 1 },
        Attr { format: AttrFormat::Float2, offset: 24, location: 2 },
        Attr { format: AttrFormat::Float4, offset: 32, location: 3 },
        Attr { format: AttrFormat::Float3, offset: 48, location: 9 },
        Attr { format: AttrFormat::Float2, offset: 60, location: 13 },
        Attr { format: AttrFormat::Float4, offset: 68, location: 22 },
    ];
    assert(a@ =~= vertex_attrs());
    a
}

/// The attributes of an instance.
pub fn instance_attributes() -> (a: Vec<Attr>)
    ensures
        a@ == instance_attrs(),
{
    let mut a: Vec<Attr> = Vec::new();
    let mut i: u32 = 0;
    while i < 25
        invariant
            i <= 25,
            a@ == instance_attrs().take(i as int),
        decreases 25 - i,
    {
        let format: AttrFormat = if i == 14 {
            AttrFormat::Float
        } else if i == 24 {
            AttrFormat::Uint4
        } else {
            AttrFormat::Float4
        };
        let offset: u32 = if i <= 14 { 16 * i } else { 16 * i - 12 };
        let location: u32 = if i < 5 {
            i + 4
        } else if i < 8 {
            i + 5
        } else if i < 16 {
            i + 6
        } else {
            i + 7
        };
        a.push(Attr { format, offset, location });
        i = i + 1;
        assert(a@ =~= instance_attrs().take(i as int));
    }
    assert(a@ =~= instance_attrs());
    a
}

/// Where the shaders find each vertex attribute: position 0, normal 1, texture coordinates 2,
/// colour 3, sway 9, lightmap coordinates 13, tangent 22, each with its width.
pub proof fn law_vertex_locations()
    ensures
        ({
            let a = vertex_attrs();
            &&& a.len() == 7
            &&& (a[0].location, a[0].offset, a[0].format) == (0u32, 0u32, AttrFormat::Float3)
            &&& (a[1].location, a[1].offset, a[1].format) == (1u32, 12u32, AttrFormat::Float3)
            &&& (a[2].location, a[2].offset, a[2].format) == (2u32, 24u32, AttrFormat::Float2)
            &&& (a[3].location, a[3].offset, a[3].format) == (3u32, 32u32, AttrFormat::Float4)
            &&& (a[4].location, a[4].offset, a[4].format) == (9u32, 48u32, AttrFormat::Float3)
            &&& (a[5].location, a[5].offset, a[5].format) == (13u32, 60u32, AttrFormat::Float2)
            &&& (a[6].location, a[6].offset, a[6].format) == (22u32, 68u32, AttrFormat::Float4)
        }),
{
}

/// Where the shaders find each instance attribute: the placement at 4 to 7, the colour at 8, and
/// the lanes at the locations that are left, each at the byte where its record holds it.
pub proof fn law_instance_locations()
    ensures
        ({
            let a = instance_attrs();
            let at = |i: int| (a[i].location as int, a[i].offset as int);
            &&& a.len() == 25
            &&& at(0) == (4int, 0int) && at(1) == (5int, 16int) && at(2) == (6int, 32int)
            &&& at(3) == (7int, 48int) && at(4) == (8int, 64int) && at(5) == (10int, 80int)
            &&& at(6) == (11int, 96int) && at(7) == (12int, 112int) && at(8) == (14int, 128int)
            &&& at(9) == (15int, 144int) && at(10) == (16int, 160int) && at(11) == (17int, 176int)
            &&& at(12) == (18int, 192int) && at(13) == (19int, 208int) && at(14) == (20int, 224int)
            &&& at(15) == (21int, 228int) && at(16) == (23int, 244int) && at(17) == (24int, 260int)
            &&& at(18) == (25int, 276int) && at(19) == (26int, 292int) && at(20) == (27int, 308int)
            &&& at(21) == (28int, 324int) && at(22) == (29int, 340int) && at(23) == (30int, 356int)
            &&& at(24) == (31int, 372int)
            &&& a[14].format == AttrFormat::Float
            &&& a[24].format == AttrFormat::Uint4
            &&& forall|i: int|
                0 <= i < 24 && i != 14 ==> (#[trigger] a[i]).format == AttrFormat::Float4
        }),
{
}

/// What each slot of a layout takes, by its number.
pub proof fn law_layout_kinds(i: int)
    ensures
        ({
            let m = material_entries();
            &&& m.len() == 17
            &&& 0 <= i < 17 ==> m[i].binding == i && m[i].stage == Stage::Fragment
            &&& m[1].kind == BindKind::Sampler && m[7].kind == BindKind::Sampler && m[11].kind
                == BindKind::Sampler && m[10].kind == BindKind::TextureCube
            &&& 0 <= i < 17 && i != 1 && i != 7 && i != 10 && i != 11 ==> m[i].kind
                == BindKind::Texture2d
        }),
        ({
            let t = terrain_entries();
            &&& t.len() == 24
            &&& 0 <= i < 24 ==> t[i].binding == i && t[i].stage == Stage::Fragment
            &&& t[5].kind == BindKind::Sampler && t[21].kind == BindKind::Sampler && t[6].kind
                == BindKind::Uniform
            &&& 0 <= i < 24 && i != 5 && i != 6 && i != 21 ==> t[i].kind == BindKind::Texture2d
        }),
        ({
            let w = water_entries();
            &&& w.len() == 13
            &&& 0 <= i < 5 ==> w[i].binding == i
            &&& 5 <= i < 13 ==> w[i].binding == i + 5
            &&& 0 <= i < 13 ==> w[i].stage == Stage::Fragment
            &&& w[1].kind == BindKind::Sampler && w[6].kind == BindKind::Sampler && w[10].kind
                == BindKind::Sampler
            &&& w[2].kind == BindKind::Uniform && w[5].kind == BindKind::TextureCube
            &&& 0 <= i < 13 && i != 1 && i != 2 && i != 5 && i != 6 && i != 10 ==> w[i].kind
                == BindKind::Texture2d
        }),
        ({
            let p = probe_entries();
            &&& p.len() == 11
            &&& 0 <= i < 11 ==> p[i].binding == i && p[i].stage == Stage::Compute
            &&& 0 <= i < 6 ==> p[i].kind == BindKind::StorageRead
            &&& p[6].kind == BindKind::Uniform
            &&& p[7].kind == BindKind::StorageReadWrite && p[8].kind == BindKind::StorageReadWrite
            &&& p[9].kind == BindKind::TextureCube && p[10].kind == BindKind::Sampler
        }),
{
}

} // verus!
