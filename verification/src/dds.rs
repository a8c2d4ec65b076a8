//! Block-compressed textures: reading a raw DDS and finding the levels that can be uploaded.

use crate::memprof;
use crate::memprof::MemProf;
use crate::texture::TexelFormat;
use crate::words;
use vstd::arithmetic::power2::*;
use vstd::prelude::*;

verus! {

/// Magic (4), header (124) and extended header (20); block data begins behind them.
pub const DDS_HEADER: usize = 148;

/// Texel extent of a compressed block.
pub const BLOCK: u32 = 4;

/// The format behind a format number, and the bytes of one block of it. Only formats that deliver
/// the stored values as they are: samplers linearise themselves.
pub open spec fn block_format(dxgi: int) -> Option<(TexelFormat, int)> {
    if dxgi == 71 || dxgi == 72 {
        Some((TexelFormat::Bc1RgbaUnorm, 8))
    } else if dxgi == 74 || dxgi == 75 {
        Some((TexelFormat::Bc2RgbaUnorm, 16))
    } else if dxgi == 77 || dxgi == 78 {
        Some((TexelFormat::Bc3RgbaUnorm, 16))
    } else if dxgi == 80 {
        Some((TexelFormat::Bc4RUnorm, 8))
    } else if dxgi == 83 {
        Some((TexelFormat::Bc5RgUnorm, 16))
    } else if dxgi == 84 {
        Some((TexelFormat::Bc5RgSnorm, 16))
    } else {
        None
    }
}

fn format_of(dxgi: u32) -> (r: Option<(TexelFormat, u64)>)
    ensures
        match r {
            Some((f, b)) => block_format(dxgi as int) == Some((f, b as int)),
            None => block_format(dxgi as int) is None,
        },
{
    match dxgi {
        71 | 72 => Some((TexelFormat::Bc1RgbaUnorm, 8)),
        74 | 75 => Some((TexelFormat::Bc2RgbaUnorm, 16)),
        77 | 78 => Some((TexelFormat::Bc3RgbaUnorm, 16)),
        80 => Some((TexelFormat::Bc4RUnorm, 8)),
        83 => Some((TexelFormat::Bc5RgUnorm, 16)),
        84 => Some((TexelFormat::Bc5RgSnorm, 16)),
        _ => None,
    }
}

pub open spec fn dds_height(d: Seq<u8>) -> int {
    words::le_word(d, 12)
}

pub open spec fn dds_width(d: Seq<u8>) -> int {
    words::le_word(d, 16)
}

/// The number of levels the header promises, at least one.
pub open spec fn dds_mips(d: Seq<u8>) -> int {
    let n = words::le_word(d, 28);
    if n < 1 {
        1
    } else {
        n
    }
}

pub open spec fn dds_format(d: Seq<u8>) -> Option<(TexelFormat, int)> {
    block_format(words::le_word(d, 128))
}

/// Bytes of one block.
pub open spec fn dds_block(d: Seq<u8>) -> int {
    match dds_format(d) {
        Some(fb) => fb.1,
        None => 0,
    }
}

/// A complete header with the magic word, a nonzero extent and a format that can be uploaded.
pub open spec fn is_dds(d: Seq<u8>) -> bool {
    &&& d.len() >= DDS_HEADER
    &&& d[0] == 0x44 && d[1] == 0x44 && d[2] == 0x53 && d[3] == 0x20
    &&& dds_width(d) != 0
    &&& dds_height(d) != 0
    &&& dds_format(d) is Some
}

/// Bytes of level `m`: whole blocks only.
pub open spec fn level_bytes(w: int, h: int, block: int, m: nat) -> int {
    (crate::texture::mip_dim(w, m) / 4) * (crate::texture::mip_dim(h, m) / 4) * block
}

/// Bytes of the first `n` levels.
pub open spec fn chain_bytes(w: int, h: int, block: int, n: nat) -> int
    decreases n,
{
    if n == 0 {
        0
    } else {
        chain_bytes(w, h, block, (n - 1) as nat) + level_bytes(w, h, block, (n - 1) as nat)
    }
}

/// Level `m` consists of whole blocks, and the data reaches to its end.
pub open spec fn level_fits(w: int, h: int, block: int, avail: int, m: nat) -> bool {
    &&& crate::texture::mip_dim(w, m) % 4 == 0
    &&& crate::texture::mip_dim(h, m) % 4 == 0
    &&& chain_bytes(w, h, block, m + 1) <= avail
}

/// Number of levels that can be uploaded, once the first `m` are known to: all up to the first that
/// does not fit.
pub open spec fn usable_levels(w: int, h: int, block: int, avail: int, mips: int, m: nat) -> nat
    decreases mips - m,
{
    if m < mips && level_fits(w, h, block, avail, m) {
        usable_levels(w, h, block, avail, mips, m + 1)
    } else {
        m
    }
}

/// The levels of a DDS that can be uploaded.
pub open spec fn dds_levels(d: Seq<u8>) -> nat {
    usable_levels(
        dds_width(d),
        dds_height(d),
        dds_block(d),
        d.len() - DDS_HEADER,
        dds_mips(d),
        0,
    )
}

/// One level: where its blocks lie, its extent in texels, and its block rows.
#[derive(Clone, Copy, Debug, PartialEq, Eq, Structural)]
pub struct BlockLevel {
    pub offset: usize,
    pub len: usize,
    pub width: u32,
    pub height: u32,
    pub row_bytes: u32,
    pub rows: u32,
}

/// A block-compressed texture as it is created and written.
pub struct BlockPlan {
    pub format: TexelFormat,
    pub width: u32,
    pub height: u32,
    pub levels: Vec<BlockLevel>,
}

/// Level `m` of a texture whose blocks begin behind the header.
pub open spec fn block_level(w: int, h: int, block: int, m: nat) -> BlockLevel {
    let mw = crate::texture::mip_dim(w, m);
    let mh = crate::texture::mip_dim(h, m);
    BlockLevel {
        offset: (DDS_HEADER + chain_bytes(w, h, block, m)) as usize,
        len: level_bytes(w, h, block, m) as usize,
        width: mw as u32,
        height: mh as u32,
        row_bytes: (mw / 4 * block) as u32,
        rows: (mh / 4) as u32,
    }
}

proof fn lemma_chain_bytes(w: int, h: int, block: int, n: nat)
    requires
        w >= 1,
        h >= 1,
        block >= 0,
    ensures
        0 <= chain_bytes(w, h, block, n),
        0 <= level_bytes(w, h, block, n),
    decreases n,
{
    crate::texture::lemma_mip_dim_bounds(w, n);
    crate::texture::lemma_mip_dim_bounds(h, n);
    let (a, b) = (crate::texture::mip_dim(w, n) / 4, crate::texture::mip_dim(h, n) / 4);
    assert(0 <= a * b * block) by (nonlinear_arith)
        requires
            a >= 0,
            b >= 0,
            block >= 0,
    ;
    if n > 0 {
        lemma_chain_bytes(w, h, block, (n - 1) as nat);
        crate::texture::lemma_mip_dim_bounds(w, (n - 1) as nat);
        crate::texture::lemma_mip_dim_bounds(h, (n - 1) as nat);
    }
}

/// The levels that are uploaded lie one behind the other, within the data.
pub proof fn law_levels_stay_within_the_data(d: Seq<u8>, m: nat)
    requires
        is_dds(d),
        m < dds_levels(d),
    ensures
        ({
            let (w, h, b) = (dds_width(d), dds_height(d), dds_block(d));
            &&& 0 <= level_bytes(w, h, b, m)
            &&& DDS_HEADER + chain_bytes(w, h, b, m) + level_bytes(w, h, b, m) <= d.len()
            &&& chain_bytes(w, h, b, m + 1) == chain_bytes(w, h, b, m) + level_bytes(w, h, b, m)
            &&& crate::texture::mip_dim(w, m) % 4 == 0
            &&& crate::texture::mip_dim(h, m) % 4 == 0
        }),
{
    let (w, h, b) = (dds_width(d), dds_height(d), dds_block(d));
    lemma_usable_levels_fit(w, h, b, d.len() - DDS_HEADER, dds_mips(d), 0, m);
    lemma_chain_bytes(w, h, b, m);
}

proof fn lemma_usable_levels_fit(
    w: int,
    h: int,
    block: int,
    avail: int,
    mips: int,
    from: nat,
    m: nat,
)
    requires
        from <= m < usable_levels(w, h, block, avail, mips, from),
    ensures
        level_fits(w, h, block, avail, m),
        m < mips,
    decreases mips - from,
{
    if from < m {
        lemma_usable_levels_fit(w, h, block, avail, mips, from + 1, m);
    }
}

fn has_magic(d: &[u8]) -> (r: bool)
    requires
        d@.len() >= DDS_HEADER,
    ensures
        r == (d@[0] == 0x44 && d@[1] == 0x44 && d@[2] == 0x53 && d@[3] == 0x20),
{
    d[0] == 0x44 && d[1] == 0x44 && d[2] == 0x53 && d[3] == 0x20
}

/// The levels of a raw DDS (extended header, compressed blocks and the map's own chain) that can be
/// uploaded as they are, without decoding. Copies must be block-aligned, so the chain ends before
/// the first level that is not made of whole blocks; it also ends where the data does. `None` when
/// the device lacks block compression, the DDS is malformed, its format is not a block format of
/// ours, or no level is left; nothing is accounted then.
pub fn upload_texture_dds(p: &mut MemProf, bc_supported: bool, dds: &[u8]) -> (r: Option<BlockPlan>)
    requires
        old(p).wf(),
    ensures
        final(p).wf(),
        match r {
            Some(plan) => {
                let (w, h, b) = (dds_width(dds@), dds_height(dds@), dds_block(dds@));
                let n = dds_levels(dds@);
                let total = chain_bytes(w, h, b, n) as u64;
                &&& bc_supported
                &&& is_dds(dds@)
                &&& n > 0
                &&& Some((plan.format, b)) == dds_format(dds@)
                &&& plan.width == w
                &&& plan.height == h
                &&& plan.levels@ == Seq::new(n, |m: int| block_level(w, h, b, m as nat))
                &&& final(p).totals() == (
                    old(p).totals().0,
                    old(p).totals().1.wrapping_add(total),
                    old(p).totals().2,
                    old(p).totals().3.wrapping_add(1),
                    old(p).totals().4,
                )
                &&& forall|name: Seq<char>|
                    #![trigger final(p).category(name)]
                    final(p).category(name) == if name == "tex:dds-bc"@ {
                        memprof::noted(old(p).category(name), total)
                    } else {
                        old(p).category(name)
                    }
            },
            None => {
                &&& !bc_supported || !is_dds(dds@) || dds_levels(dds@) == 0
                &&& *final(p) == *old(p)
            },
        },
{
    if !bc_supported {
        return None;
    }
    if dds.len() < DDS_HEADER || !has_magic(dds) {
        return None;
    }
    let h: u32 = words::read_le(dds, 12);
    let w: u32 = words::read_le(dds, 16);
    let promised: u32 = words::read_le(dds, 28);
    let mips: u32 = if promised < 1 { 1 } else { promised };
    let dxgi: u32 = words::read_le(dds, 128);
    if w == 0 || h == 0 {
        return None;
    }
    let (format, block): (TexelFormat, u64) = match format_of(dxgi) {
        Some(fb) => fb,
        None => {
            return None;
        },
    };
    assert(dds.len() == dds@.len());
    let avail: u64 = (dds.len() - DDS_HEADER) as u64;
    let ghost (gw, gh, gb, ga) = (w as int, h as int, block as int, avail as int);
    let mut levels: Vec<BlockLevel> = Vec::new();
    let mut total: u64 = 0;
    let mut m: u32 = 0;
    let mut mw: u32 = w;
    let mut mh: u32 = h;
    let mut more: bool = true;
    proof {
        crate::texture::lemma_mip_dim_zero(gw);
        crate::texture::lemma_mip_dim_zero(gh);
        lemma2_to64();
    }
    while more && m < mips
        invariant
            gw == w,
            gh == h,
            gb == block,
            ga == avail,
            w >= 1,
            h >= 1,
            block == 8 || block == 16,
            avail == dds@.len() - DDS_HEADER,
            dds@.len() <= usize::MAX,
            m <= mips,
            m <= 31,
            mw == crate::texture::mip_dim(gw, m as nat),
            mh == crate::texture::mip_dim(gh, m as nat),
            total == chain_bytes(gw, gh, gb, m as nat),
            total <= avail,
            levels@ == Seq::new(m as nat, |k: int| block_level(gw, gh, gb, k as nat)),
            usable_levels(gw, gh, gb, ga, mips as int, 0) == usable_levels(
                gw,
                gh,
                gb,
                ga,
                mips as int,
                m as nat,
            ),
            !more ==> !level_fits(gw, gh, gb, ga, m as nat),
        decreases mips - m, if more { 1int } else { 0int },
    {
        proof {
            crate::texture::lemma_mip_dim_bounds(gw, m as nat);
            crate::texture::lemma_mip_dim_bounds(gh, m as nat);
            crate::texture::lemma_mip_dim_step(gw, m as nat);
            crate::texture::lemma_mip_dim_step(gh, m as nat);
            lemma_chain_bytes(gw, gh, gb, m as nat);
            reveal_with_fuel(chain_bytes, 2);
        }
        if mw % BLOCK != 0 || mh % BLOCK != 0 {
            more = false;
        } else {
            let bx: u64 = (mw / BLOCK) as u64;
            let by: u64 = (mh / BLOCK) as u64;
            assert(bx * by <= 0x3fff_ffff * 0x3fff_ffff && bx * by >= 0) by (nonlinear_arith)
                requires
                    0 <= bx <= 0x3fff_ffff,
                    0 <= by <= 0x3fff_ffff,
            ;
            assert(bx * by * block <= 0x0fff_ffff_8000_0001 * 16 && bx * by * block >= 0)
                by (nonlinear_arith)
                requires
                    0 <= bx * by <= 0x0fff_ffff_8000_0001,
                    block == 8 || block == 16,
            ;
            let size: u64 = bx * by * block;
            assert(size == level_bytes(gw, gh, gb, m as nat));
            if size > avail - total {
                more = false;
            } else {
                proof {
                    assert(mw >= 4);
                    lemma_small_extent(gw, m as nat);
                    assert(bx * block <= bx * by * block) by (nonlinear_arith)
                        requires
                            by >= 1,
                            bx >= 0,
                            block >= 0,
                    ;
                }
                levels.push(
                    BlockLevel {
                        offset: DDS_HEADER + total as usize,
                        len: size as usize,
                        width: mw,
                        height: mh,
                        row_bytes: (bx * block) as u32,
                        rows: by as u32,
                    },
                );
                proof {
                    assert(levels@ =~= Seq::new(
                        (m + 1) as nat,
                        |k: int| block_level(gw, gh, gb, k as nat),
                    ));
                }
                total = total + size;
                mw = if mw / 2 < 1 { 1 } else { mw / 2 };
                mh = if mh / 2 < 1 { 1 } else { mh / 2 };
                m = m + 1;
            }
        }
    }
    assert(m == dds_levels(dds@));
    if m == 0 {
        return None;
    }
    memprof::add_tex_bc(p, total);
    memprof::note(p, "tex:dds-bc", total);
    Some(BlockPlan { format, width: w, height: h, levels })
}

/// An extent that is still four texels or more was halved less than 31 times.
proof fn lemma_small_extent(n: int, k: nat)
    requires
        1 <= n <= u32::MAX,
        crate::texture::mip_dim(n, k) >= 4,
    ensures
        k < 31,
{
    if k >= 31 {
        lemma2_to64();
        if k > 31 {
            lemma_pow2_strictly_increases(31, k);
        }
        lemma_pow2_pos(k);
        let p = pow2(k) as int;
        assert(n / p < 2) by (nonlinear_arith)
            requires
                0 <= n < 2 * p,
                p > 0,
        ;
    }
}

// ---- what a file and its levels mean ----------------------------------------------------------
/// Bits that a format stores per texel: one 64-bit half per block of sixteen texels for one colour
/// or one channel, two for colour with alpha or for two channels.
pub open spec fn bits_per_texel(f: TexelFormat) -> int {
    match f {
        TexelFormat::Bc1RgbaUnorm | TexelFormat::Bc4RUnorm => 4,
        TexelFormat::Bc2RgbaUnorm | TexelFormat::Bc3RgbaUnorm | TexelFormat::Bc5RgUnorm
        | TexelFormat::Bc5RgSnorm => 8,
        TexelFormat::Rgba8Unorm | TexelFormat::Bgra8Unorm => 32,
        TexelFormat::Rgba16Float => 64,
    }
}

/// Format numbers come in threes per compression: untyped, linear, and sRGB or signed. Untyped ones
/// are never taken. The first three compressions give the same format for both others, the fourth
/// has the linear one alone, and the fifth tells unsigned from signed.
pub proof fn law_format_numbers(dxgi: int)
    ensures
        ({
            let (group, member) = ((dxgi - 70) / 3, (dxgi - 70) % 3);
            let known = 70 <= dxgi && group < 5 && member != 0 && !(group == 3 && member == 2);
            &&& block_format(dxgi) is Some <==> known
            &&& known ==> {
                let (f, b) = block_format(dxgi)->0;
                &&& group == 0 <==> f == TexelFormat::Bc1RgbaUnorm
                &&& group == 1 <==> f == TexelFormat::Bc2RgbaUnorm
                &&& group == 2 <==> f == TexelFormat::Bc3RgbaUnorm
                &&& group == 3 <==> f == TexelFormat::Bc4RUnorm
                &&& group == 4 && member == 1 <==> f == TexelFormat::Bc5RgUnorm
                &&& group == 4 && member == 2 <==> f == TexelFormat::Bc5RgSnorm
            }
        }),
{
}

/// A block is sixteen texels of its format, whatever format number gave it.
pub proof fn law_block_bytes_follow_the_format(dxgi: int)
    ensures
        block_format(dxgi) matches Some((f, b)) ==> 8 * b == 16 * bits_per_texel(f),
{
}

/// What the header says, byte by byte: height, width, levels and format number, each least
/// significant byte first.
pub proof fn law_header_fields(d: Seq<u8>)
    requires
        d.len() >= 148,
    ensures
        dds_height(d) == d[12] + 256 * d[13] + 65536 * d[14] + 16777216 * d[15],
        dds_width(d) == d[16] + 256 * d[17] + 65536 * d[18] + 16777216 * d[19],
        d[28] + 256 * d[29] + 65536 * d[30] + 16777216 * d[31] >= 1 ==> dds_mips(d) == d[28] + 256
            * d[29] + 65536 * d[30] + 16777216 * d[31],
        d[28] == 0 && d[29] == 0 && d[30] == 0 && d[31] == 0 ==> dds_mips(d) == 1,
        dds_format(d) == block_format(d[128] + 256 * d[129] + 65536 * d[130] + 16777216 * d[131]),
{
}

/// Each level that is uploaded: it has half the extent of the level before, all its texels are
/// there in whole rows of whole blocks, at the bits that its format stores per texel, and it begins
/// where the level before ended; the first one begins right behind the header. Wider textures have
/// rows whose bytes a 32-bit count does not hold.
pub proof fn law_levels_hold_their_texels(d: Seq<u8>, m: nat)
    requires
        is_dds(d),
        d.len() <= usize::MAX,
        dds_width(d) < 0x4000_0000,
        m < dds_levels(d),
    ensures
        ({
            let (w, h, b) = (dds_width(d), dds_height(d), dds_block(d));
            let (f, _) = dds_format(d)->0;
            let l = block_level(w, h, b, m);
            &&& m == 0 ==> l.width == w && l.height == h && l.offset == 148
            &&& m > 0 ==> {
                let before = block_level(w, h, b, (m - 1) as nat);
                &&& l.width == before.width / 2
                &&& l.height == before.height / 2
                &&& l.offset == before.offset + before.len
            }
            &&& 4 * l.rows == l.height
            &&& 8 * l.row_bytes == 4 * l.width * bits_per_texel(f)
            &&& l.len == l.rows * l.row_bytes
            &&& l.offset + l.len <= d.len()
        }),
{
    let (w, h, b) = (dds_width(d), dds_height(d), dds_block(d));
    law_block_bytes_follow_the_format(words::le_word(d, 128));
    law_levels_stay_within_the_data(d, m);
    lemma_level_shape(d, m);
    let (width, quads, bits) = (
        crate::texture::mip_dim(w, m),
        crate::texture::mip_dim(w, m) / 4,
        bits_per_texel((dds_format(d)->0).0),
    );
    assert(8 * (quads * b) == 4 * width * bits) by (nonlinear_arith)
        requires
            width == 4 * quads,
            8 * b == 16 * bits,
    ;
    if m == 0 {
        crate::texture::lemma_mip_dim_zero(w);
        crate::texture::lemma_mip_dim_zero(h);
    } else {
        law_levels_stay_within_the_data(d, (m - 1) as nat);
        lemma_level_shape(d, (m - 1) as nat);
        crate::texture::lemma_mip_dim_step(w, (m - 1) as nat);
        crate::texture::lemma_mip_dim_step(h, (m - 1) as nat);
    }
}

proof fn lemma_level_shape(d: Seq<u8>, m: nat)
    requires
        is_dds(d),
        d.len() <= usize::MAX,
        dds_width(d) < 0x4000_0000,
        m < dds_levels(d),
    ensures
        ({
            let (w, h, b) = (dds_width(d), dds_height(d), dds_block(d));
            let l = block_level(w, h, b, m);
            let (mw, mh) = (crate::texture::mip_dim(w, m), crate::texture::mip_dim(h, m));
            &&& b == 8 || b == 16
            &&& mw >= 4 && mw % 4 == 0 && l.width == mw
            &&& mh >= 4 && mh % 4 == 0 && l.height == mh
            &&& l.rows == mh / 4
            &&& l.row_bytes == mw / 4 * b
            &&& l.offset == DDS_HEADER + chain_bytes(w, h, b, m)
            &&& l.len == level_bytes(w, h, b, m)
            &&& l.len == l.rows * l.row_bytes
        }),
{
    let (w, h, b) = (dds_width(d), dds_height(d), dds_block(d));
    law_levels_stay_within_the_data(d, m);
    lemma_chain_bytes(w, h, b, m);
    crate::texture::lemma_mip_dim_bounds(w, m);
    crate::texture::lemma_mip_dim_bounds(h, m);
    let (x, y) = (crate::texture::mip_dim(w, m) / 4, crate::texture::mip_dim(h, m) / 4);
    assert(x * y * b == y * (x * b)) by (nonlinear_arith);
    assert(x >= 1 && y >= 1);
    assert(0 <= x * b < 0x1_0000_0000) by (nonlinear_arith)
        requires
            1 <= x < 0x1000_0000,
            b == 8 || b == 16,
    ;
}

/// Nothing that could be uploaded is left out: the chain ends with the levels that the header
/// promises, before a level that is not made of whole blocks, or where the data ends.
pub proof fn law_chain_ends_for_a_reason(d: Seq<u8>)
    requires
        is_dds(d),
    ensures
        ({
            let n = dds_levels(d);
            let (w, h, b) = (dds_width(d), dds_height(d), dds_block(d));
            ||| n == dds_mips(d)
            ||| crate::texture::mip_dim(w, n) % 4 != 0
            ||| crate::texture::mip_dim(h, n) % 4 != 0
            ||| 148 + chain_bytes(w, h, b, n) + level_bytes(w, h, b, n) > d.len()
        }),
        dds_levels(d) <= dds_mips(d),
{
    let (w, h, b) = (dds_width(d), dds_height(d), dds_block(d));
    lemma_chain_end(w, h, b, d.len() - DDS_HEADER, dds_mips(d), 0);
}

proof fn lemma_chain_end(w: int, h: int, block: int, avail: int, mips: int, m: nat)
    requires
        m <= mips,
    ensures
        ({
            let n = usable_levels(w, h, block, avail, mips, m);
            n <= mips && (n == mips || !level_fits(w, h, block, avail, n))
        }),
    decreases mips - m,
{
    if m < mips && level_fits(w, h, block, avail, m) {
        lemma_chain_end(w, h, block, avail, mips, m + 1);
    }
}

/// A file is taken exactly when its header is complete, begins with the four letters "DDS ", and
/// names an extent and a format.
pub proof fn law_headers_taken(d: Seq<u8>)
    ensures
        is_dds(d) <==> d.len() >= 148 && (d[0], d[1], d[2], d[3]) == (68u8, 68u8, 83u8, 32u8)
            && dds_width(d) > 0 && dds_height(d) > 0 && dds_format(d) is Some,
{
}

/// The bytes that are counted are those of the uploaded levels: from the end of the header to the
/// end of the last level.
pub proof fn law_counted_bytes_are_the_levels(d: Seq<u8>)
    requires
        is_dds(d),
        d.len() <= usize::MAX,
        dds_levels(d) > 0,
    ensures
        ({
            let (w, h, b) = (dds_width(d), dds_height(d), dds_block(d));
            let n = dds_levels(d);
            let last = block_level(w, h, b, (n - 1) as nat);
            chain_bytes(w, h, b, n) == last.offset + last.len - 148
        }),
{
    let (w, h, b) = (dds_width(d), dds_height(d), dds_block(d));
    let m = (dds_levels(d) - 1) as nat;
    law_levels_stay_within_the_data(d, m);
    lemma_chain_bytes(w, h, b, m);
}

} // verus!
