//! Mip chains of RGBA8 textures: level count and sizes, the 2x2 box filter
//! and the whole CPU chain, the compute dispatches of the GPU chain, and the
//! row layout of level uploads and read-backs.
use vstd::arithmetic::power2::{
    lemma2_to64, lemma_pow2_strictly_increases, lemma_pow2_unfold, pow2,
};
use vstd::arithmetic::div_mod::lemma_fundamental_div_mod_converse;
use vstd::prelude::*;

verus! {

/// `floor(log2(x))` for `x >= 1` (and 0 for `x == 0`).
pub open spec fn log2_floor(x: nat) -> nat
    decreases x,
{
    if x <= 1 {
        0
    } else {
        1 + log2_floor(x / 2)
    }
}

/// Number of binary digits of `x`: 0 for 0, else `1 + floor(log2(x))`.
pub open spec fn bit_width_spec(x: nat) -> nat {
    if x == 0 {
        0
    } else {
        1 + log2_floor(x)
    }
}

/// The larger of `a` and `b`.
pub open spec fn max_nat(a: nat, b: nat) -> nat {
    if a >= b {
        a
    } else {
        b
    }
}

/// Length of the full mip chain of a `width` x `height` image: one level per
/// halving of the larger side, the original level included.
pub open spec fn mip_level_count_spec(width: nat, height: nat) -> nat {
    bit_width_spec(max_nat(width, height))
}

/// `log2_floor` is the floor of the binary logarithm: `2^l <= x < 2^(l+1)`.
pub proof fn lemma_log2_floor_bounds(x: nat)
    requires
        x >= 1,
    ensures
        pow2(log2_floor(x)) <= x < pow2(log2_floor(x) + 1),
    decreases x,
{
    if x <= 1 {
        lemma2_to64();
    } else {
        lemma_log2_floor_bounds(x / 2);
        lemma_pow2_unfold(log2_floor(x));
        lemma_pow2_unfold(log2_floor(x) + 1);
    }
}

proof fn lemma_bit_width_u32(x: u32)
    ensures
        bit_width_spec(x as nat) <= 32,
{
    if x >= 1 {
        lemma_log2_floor_bounds(x as nat);
        lemma2_to64();
        if log2_floor(x as nat) > 32 {
            lemma_pow2_strictly_increases(32, log2_floor(x as nat));
        }
    }
}

/// The number of binary digits of `x`.
pub fn bit_width(x: u32) -> (r: u32)
    ensures
        r as nat == bit_width_spec(x as nat),
{
    proof {
        lemma_bit_width_u32(x);
    }
    let mut v: u32 = x;
    let mut r: u32 = 0;
    while v > 0
        invariant
            r + bit_width_spec(v as nat) == bit_width_spec(x as nat),
            bit_width_spec(x as nat) <= 32,
        decreases v,
    {
        v = v / 2;
        r = r + 1;
    }
    r
}

/// Number of levels of the full mip chain of a `width` x `height` texture:
/// `1 + floor(log2(max(width, height)))`, and 0 for an empty texture.
pub fn get_max_mip_level_count(width: u32, height: u32) -> (r: u32)
    ensures
        r as nat == mip_level_count_spec(width as nat, height as nat),
        width > 0 || height > 0 ==> r >= 1,
{
    let larger: u32 = if width >= height {
        width
    } else {
        height
    };
    bit_width(larger)
}

/// The mip chain has `1 + floor(log2(max(W, H)))` levels: with `c` levels,
/// `2^(c-1) <= max(W, H) < 2^c`.
pub proof fn lemma_mip_level_count_is_floor_log2(width: nat, height: nat)
    requires
        width >= 1 || height >= 1,
    ensures
        mip_level_count_spec(width, height) >= 1,
        mip_level_count_spec(width, height) == 1 + log2_floor(max_nat(width, height)),
        pow2((mip_level_count_spec(width, height) - 1) as nat) <= max_nat(width, height),
        max_nat(width, height) < pow2(mip_level_count_spec(width, height)),
{
    lemma_log2_floor_bounds(max_nat(width, height));
}

/// Side of the next mip level: half the side (integer division), never below 1.
pub open spec fn half_extent(side: nat) -> nat {
    if side / 2 == 0 {
        1
    } else {
        side / 2
    }
}

/// Side of mip level `level` of a texture whose level 0 has side `side`.
pub open spec fn mip_extent(side: nat, level: nat) -> nat
    decreases level,
{
    if level == 0 {
        side
    } else {
        half_extent(mip_extent(side, (level - 1) as nat))
    }
}

/// The side of mip level `level` of a texture of side `size`: halved once per
/// level, with a floor of 1.
pub fn mip_level_size(size: u32, level: u32) -> (r: u32)
    ensures
        r as nat == mip_extent(size as nat, level as nat),
{
    let mut side: u32 = size;
    let mut l: u32 = 0;
    while l < level
        invariant
            l <= level,
            side as nat == mip_extent(size as nat, l as nat),
        decreases level - l,
    {
        side = if side / 2 == 0 {
            1
        } else {
            side / 2
        };
        l = l + 1;
    }
    side
}

/// Position of channel `channel` of pixel `(x, y)` in row-major RGBA8 data
/// of the given width.
pub open spec fn texel_index(width: nat, x: nat, y: nat, channel: nat) -> nat {
    4 * (y * width + x) + channel
}

/// The second column (or row) of the 2x2 source block of output column `x`:
/// `2x + 1`, clamped to the last column of a one-wide source.
pub open spec fn second_source(x: nat, side: nat) -> nat {
    if 2 * x + 1 < side {
        2 * x + 1
    } else {
        (side - 1) as nat
    }
}

/// Unweighted mean of four channel values, truncated.
pub open spec fn mean4(a: u8, b: u8, c: u8, d: u8) -> u8 {
    ((a as int + b as int + c as int + d as int) / 4) as u8
}

/// Channel `channel` of pixel `(x, y)` of the next level: the truncated mean
/// of the 2x2 block at `(2x, 2y)` of the previous level.
pub open spec fn box_filter_channel(
    src: Seq<u8>,
    width: nat,
    height: nat,
    x: nat,
    y: nat,
    channel: nat,
) -> u8 {
    let x0 = 2 * x;
    let x1 = second_source(x, width);
    let y0 = 2 * y;
    let y1 = second_source(y, height);
    mean4(
        src[texel_index(width, x0, y0, channel) as int],
        src[texel_index(width, x1, y0, channel) as int],
        src[texel_index(width, x0, y1, channel) as int],
        src[texel_index(width, x1, y1, channel) as int],
    )
}

/// Byte `i` of the level that follows a `width` x `height` level `src`.
pub open spec fn downsampled_byte(src: Seq<u8>, width: nat, height: nat, i: int) -> u8 {
    let out_width = half_extent(width);
    box_filter_channel(
        src,
        width,
        height,
        ((i / 4) % (out_width as int)) as nat,
        ((i / 4) / (out_width as int)) as nat,
        (i % 4) as nat,
    )
}

/// The level that follows a `width` x `height` RGBA8 level under the 2x2 box
/// filter, in row-major order.
pub open spec fn downsample_spec(src: Seq<u8>, width: nat, height: nat) -> Seq<u8> {
    Seq::new(
        4 * half_extent(width) * half_extent(height),
        |i: int| downsampled_byte(src, width, height, i),
    )
}

proof fn lemma_texel_in_bounds(width: nat, height: nat, x: nat, y: nat, channel: nat)
    requires
        x < width,
        y < height,
        channel < 4,
    ensures
        y * width + x < width * height,
        texel_index(width, x, y, channel) < 4 * width * height,
        4 * width * height == 4 * (width * height),
{
    assert(y * width + x < width * height) by (nonlinear_arith)
        requires
            x < width,
            y < height,
    ;
    assert(4 * (width * height) == 4 * width * height) by (nonlinear_arith);
}

proof fn lemma_pixel_position(out_width: nat, x: nat, y: nat, channel: nat)
    requires
        x < out_width,
        channel < 4,
    ensures
        ({
            let i = texel_index(out_width, x, y, channel) as int;
            &&& i / 4 == y * out_width + x
            &&& i % 4 == channel
            &&& (i / 4) % (out_width as int) == x
            &&& (i / 4) / (out_width as int) == y
        }),
{
    let p = (y * out_width + x) as int;
    lemma_fundamental_div_mod_converse(4 * p + channel, 4, p, channel as int);
    lemma_fundamental_div_mod_converse(p, out_width as int, y as int, x as int);
}

/// One channel of one pixel of the next level.
fn box_filter_at(src: &Vec<u8>, width: u32, height: u32, x: u32, y: u32, channel: u32) -> (r: u8)
    requires
        width >= 1,
        height >= 1,
        src@.len() == 4 * width * height,
        x < half_extent(width as nat),
        y < half_extent(height as nat),
        channel < 4,
    ensures
        r == box_filter_channel(src@, width as nat, height as nat, x as nat, y as nat, channel as nat),
{
    let x0: u32 = 2 * x;
    let x1: u32 = if 2 * x + 1 < width {
        2 * x + 1
    } else {
        width - 1
    };
    let y0: u32 = 2 * y;
    let y1: u32 = if 2 * y + 1 < height {
        2 * y + 1
    } else {
        height - 1
    };
    proof {
        lemma_texel_in_bounds(width as nat, height as nat, x0 as nat, y0 as nat, channel as nat);
        lemma_texel_in_bounds(width as nat, height as nat, x1 as nat, y0 as nat, channel as nat);
        lemma_texel_in_bounds(width as nat, height as nat, x0 as nat, y1 as nat, channel as nat);
        lemma_texel_in_bounds(width as nat, height as nat, x1 as nat, y1 as nat, channel as nat);
    }
    // The length, a usize, bounds every index computed below.
    let _src_len = src.len();
    let w = width as usize;
    let c = channel as usize;
    let i00: usize = 4 * ((y0 as usize) * w + (x0 as usize)) + c;
    let i01: usize = 4 * ((y0 as usize) * w + (x1 as usize)) + c;
    let i10: usize = 4 * ((y1 as usize) * w + (x0 as usize)) + c;
    let i11: usize = 4 * ((y1 as usize) * w + (x1 as usize)) + c;
    let sum: u32 = src[i00] as u32 + src[i01] as u32 + src[i10] as u32 + src[i11] as u32;
    (sum / 4) as u8
}

/// One step of the mip chain: the level that follows the `width` x `height`
/// RGBA8 level `src`. Each output channel is the truncated mean of the 2x2
/// block at `(2x, 2y)`; a source side of 1 repeats its single column or row.
pub fn downsample(src: &Vec<u8>, width: u32, height: u32) -> (dst: Vec<u8>)
    requires
        width >= 1,
        height >= 1,
        src@.len() == 4 * width * height,
    ensures
        dst@ == downsample_spec(src@, width as nat, height as nat),
{
    let out_width: u32 = if width / 2 == 0 {
        1
    } else {
        width / 2
    };
    let out_height: u32 = if height / 2 == 0 {
        1
    } else {
        height / 2
    };
    let ghost w = width as nat;
    let ghost h = height as nat;
    let mut dst: Vec<u8> = Vec::new();
    let mut y: u32 = 0;
    while y < out_height
        invariant
            width >= 1,
            height >= 1,
            src@.len() == 4 * width * height,
            out_width == half_extent(w),
            out_height == half_extent(h),
            w == width,
            h == height,
            y <= out_height,
            dst@.len() == 4 * (y * out_width),
            forall|i: int| 0 <= i < dst@.len() ==> dst@[i] == downsampled_byte(src@, w, h, i),
        decreases out_height - y,
    {
        let mut x: u32 = 0;
        while x < out_width
            invariant
                width >= 1,
                height >= 1,
                src@.len() == 4 * width * height,
                out_width == half_extent(w),
                out_height == half_extent(h),
                w == width,
                h == height,
                y < out_height,
                x <= out_width,
                dst@.len() == 4 * (y * out_width + x),
                forall|i: int| 0 <= i < dst@.len() ==> dst@[i] == downsampled_byte(src@, w, h, i),
            decreases out_width - x,
        {
            let mut c: u32 = 0;
            while c < 4
                invariant
                    width >= 1,
                    height >= 1,
                    src@.len() == 4 * width * height,
                    out_width == half_extent(w),
                    out_height == half_extent(h),
                    w == width,
                    h == height,
                    y < out_height,
                    x < out_width,
                    c <= 4,
                    dst@.len() == texel_index(out_width as nat, x as nat, y as nat, c as nat),
                    forall|i: int|
                        0 <= i < dst@.len() ==> dst@[i] == downsampled_byte(src@, w, h, i),
                decreases 4 - c,
            {
                let v = box_filter_at(src, width, height, x, y, c);
                proof {
                    lemma_pixel_position(out_width as nat, x as nat, y as nat, c as nat);
                }
                dst.push(v);
                c = c + 1;
            }
            x = x + 1;
        }
        assert(4 * (y * out_width + out_width) == 4 * ((y + 1) * out_width)) by (nonlinear_arith);
        y = y + 1;
    }
    assert(dst@ =~= downsample_spec(src@, w, h)) by {
        assert(4 * (out_height * out_width) == 4 * half_extent(w) * half_extent(h))
            by (nonlinear_arith)
            requires
                out_width == half_extent(w),
                out_height == half_extent(h),
        ;
    }
    dst
}

/// Level `level` of the mip chain of the `width` x `height` RGBA8 image `base`.
pub open spec fn mip_chain_level(base: Seq<u8>, width: nat, height: nat, level: nat) -> Seq<u8>
    decreases level,
{
    if level == 0 {
        base
    } else {
        let l = (level - 1) as nat;
        downsample_spec(
            mip_chain_level(base, width, height, l),
            mip_extent(width, l),
            mip_extent(height, l),
        )
    }
}

proof fn lemma_mip_extent_bounds(side: nat, level: nat)
    requires
        side >= 1,
    ensures
        1 <= mip_extent(side, level) <= side,
    decreases level,
{
    if level > 0 {
        lemma_mip_extent_bounds(side, (level - 1) as nat);
    }
}

proof fn lemma_mip_chain_level_len(base: Seq<u8>, width: nat, height: nat, level: nat)
    requires
        base.len() == 4 * width * height,
    ensures
        mip_chain_level(base, width, height, level).len() == 4 * mip_extent(width, level)
            * mip_extent(height, level),
    decreases level,
{
    if level > 0 {
        lemma_mip_chain_level_len(base, width, height, (level - 1) as nat);
    }
}

/// The CPU mip chain of a `width` x `height` RGBA8 image (row-major): level 0
/// is the image itself, and each further level is the box-filtered half of
/// the one before, down to `1 + floor(log2(max(width, height)))` levels.
/// There is none for an empty image or for data of the wrong length.
pub fn compute_mip_chain_cpu(level0: Vec<u8>, width: u32, height: u32) -> (r: Option<
    Vec<Vec<u8>>,
>)
    ensures
        r is None <==> (width == 0 || height == 0 || level0@.len() != 4 * width * height),
        r matches Some(levels) ==> {
            &&& levels@.len() == mip_level_count_spec(width as nat, height as nat)
            &&& forall|l: int|
                0 <= l < levels@.len() ==> levels@[l]@ == mip_chain_level(
                    level0@,
                    width as nat,
                    height as nat,
                    l as nat,
                )
        },
{
    assert((width as int) * (height as int) <= u32::MAX as int * u32::MAX as int) by (nonlinear_arith);
    let area: u64 = (width as u64) * (height as u64);
    assert(4 * (area as int) == 4 * width * height) by (nonlinear_arith)
        requires
            area == width * height,
    ;
    if width == 0 || height == 0 || level0.len() as u128 != 4 * (area as u128) {
        return None;
    }
    let count = get_max_mip_level_count(width, height);
    let ghost base = level0@;
    let ghost w = width as nat;
    let ghost h = height as nat;
    let mut levels: Vec<Vec<u8>> = Vec::new();
    levels.push(level0);
    let mut level_width: u32 = width;
    let mut level_height: u32 = height;
    let mut level: u32 = 1;
    while level < count
        invariant
            1 <= level,
            level <= count || count == 0,
            count == mip_level_count_spec(w, h),
            w == width,
            h == height,
            w >= 1,
            h >= 1,
            base.len() == 4 * w * h,
            levels@.len() == level,
            level_width == mip_extent(w, (level - 1) as nat),
            level_height == mip_extent(h, (level - 1) as nat),
            forall|l: int|
                0 <= l < levels@.len() ==> levels@[l]@ == mip_chain_level(base, w, h, l as nat),
        decreases count - level,
    {
        proof {
            lemma_mip_chain_level_len(base, w, h, (level - 1) as nat);
            lemma_mip_extent_bounds(w, (level - 1) as nat);
            lemma_mip_extent_bounds(h, (level - 1) as nat);
        }
        let next = downsample(&levels[(level - 1) as usize], level_width, level_height);
        levels.push(next);
        level_width = if level_width / 2 == 0 {
            1
        } else {
            level_width / 2
        };
        level_height = if level_height / 2 == 0 {
            1
        } else {
            level_height / 2
        };
        level = level + 1;
    }
    Some(levels)
}

/// A 2x2 block of a single value keeps that value one level down: when the
/// four source pixels of output pixel `(x, y)` agree on a channel, the
/// output pixel has exactly that channel value.
pub proof fn lemma_uniform_block_keeps_value(
    src: Seq<u8>,
    width: nat,
    height: nat,
    x: nat,
    y: nat,
    channel: nat,
    value: u8,
)
    requires
        width >= 2,
        height >= 2,
        src.len() == 4 * width * height,
        x < width / 2,
        y < height / 2,
        channel < 4,
        src[texel_index(width, 2 * x, 2 * y, channel) as int] == value,
        src[texel_index(width, 2 * x + 1, 2 * y, channel) as int] == value,
        src[texel_index(width, 2 * x, 2 * y + 1, channel) as int] == value,
        src[texel_index(width, 2 * x + 1, 2 * y + 1, channel) as int] == value,
    ensures
        downsample_spec(src, width, height)[texel_index(half_extent(width), x, y, channel) as int]
            == value,
{
    let out_width = half_extent(width);
    lemma_pixel_position(out_width, x, y, channel);
    lemma_texel_in_bounds(out_width, half_extent(height), x, y, channel);
    assert(4 * out_width * half_extent(height) == downsample_spec(src, width, height).len());
}

/// Pixels on a side of a compute workgroup.
pub const WORKGROUP_SIDE: u32 = 8;

/// `ceil(n / d)`.
pub open spec fn ceil_div(n: nat, d: nat) -> nat {
    ((n + d - 1) / (d as int)) as nat
}

/// Number of workgroups that cover `invocations` pixels along one side:
/// `ceil(invocations / 8)`.
pub fn workgroup_count(invocations: u32) -> (r: u32)
    ensures
        r as nat == ceil_div(invocations as nat, WORKGROUP_SIDE as nat),
{
    let whole: u32 = invocations / WORKGROUP_SIDE;
    if invocations % WORKGROUP_SIDE == 0 {
        whole
    } else {
        whole + 1
    }
}

/// One compute dispatch of the GPU mip chain: it reads level `source_level`
/// and writes level `target_level`, whose size is `width` x `height`, with a
/// grid of `groups_x` x `groups_y` workgroups.
#[derive(Clone, Copy, Debug, PartialEq, Eq, Structural)]
pub struct MipDispatch {
    pub source_level: u32,
    pub target_level: u32,
    pub width: u32,
    pub height: u32,
    pub groups_x: u32,
    pub groups_y: u32,
}

/// The dispatch that writes level `level` of a `width` x `height` texture.
pub open spec fn mip_dispatch_spec(width: nat, height: nat, level: nat) -> MipDispatch {
    let w = mip_extent(width, level);
    let h = mip_extent(height, level);
    MipDispatch {
        source_level: (level - 1) as u32,
        target_level: level as u32,
        width: w as u32,
        height: h as u32,
        groups_x: ceil_div(w, WORKGROUP_SIDE as nat) as u32,
        groups_y: ceil_div(h, WORKGROUP_SIDE as nat) as u32,
    }
}

/// The compute passes that fill levels `1..mip_level_count` of a
/// `width` x `height` texture, in order: pass `i` reads level `i` and writes
/// level `i + 1`, over a grid that covers level `i + 1`.
pub fn gpu_mip_passes(width: u32, height: u32, mip_level_count: u32) -> (r: Vec<MipDispatch>)
    ensures
        r@.len() == if mip_level_count == 0 {
            0
        } else {
            mip_level_count - 1
        },
        forall|i: int|
            0 <= i < r@.len() ==> r@[i] == mip_dispatch_spec(
                width as nat,
                height as nat,
                (i + 1) as nat,
            ),
{
    let mut passes: Vec<MipDispatch> = Vec::new();
    let mut level: u32 = 1;
    while level < mip_level_count
        invariant
            1 <= level,
            level <= mip_level_count || level == 1,
            passes@.len() == level - 1,
            forall|i: int|
                0 <= i < passes@.len() ==> passes@[i] == mip_dispatch_spec(
                    width as nat,
                    height as nat,
                    (i + 1) as nat,
                ),
        decreases mip_level_count - level,
    {
        let w = mip_level_size(width, level);
        let h = mip_level_size(height, level);
        let pass = MipDispatch {
            source_level: level - 1,
            target_level: level,
            width: w,
            height: h,
            groups_x: workgroup_count(w),
            groups_y: workgroup_count(h),
        };
        passes.push(pass);
        level = level + 1;
    }
    passes
}

/// Row pitch, in bytes, that a copy from a texture into a buffer must be a
/// multiple of.
pub const COPY_ROW_ALIGNMENT: u32 = 256;

/// `n` rounded up to a multiple of `a`.
pub open spec fn round_up(n: nat, a: nat) -> nat {
    ceil_div(n, a) * a
}

/// Size and row pitches of one RGBA8 mip level: `bytes_per_row` is the packed
/// pitch of an upload, `padded_bytes_per_row` the aligned pitch of a copy
/// into a buffer for reading back.
#[derive(Clone, Copy, Debug, PartialEq, Eq, Structural)]
pub struct LevelLayout {
    pub width: u32,
    pub height: u32,
    pub bytes_per_row: u32,
    pub padded_bytes_per_row: u32,
}

impl LevelLayout {
    /// Bytes of the read-back buffer: one padded row per pixel row.
    pub fn buffer_size(&self) -> (r: u64)
        ensures
            r == self.padded_bytes_per_row * self.height,
    {
        assert(self.padded_bytes_per_row * self.height <= u32::MAX as int * u32::MAX as int)
            by (nonlinear_arith);
        (self.padded_bytes_per_row as u64) * (self.height as u64)
    }
}

/// Layout of level `mip_level` of a `texture_width` x `texture_height` RGBA8
/// texture. There is none when the aligned pitch does not fit in a `u32`.
pub fn level_layout(texture_width: u32, texture_height: u32, mip_level: u32) -> (r: Option<
    LevelLayout,
>)
    ensures
        ({
            let w = mip_extent(texture_width as nat, mip_level as nat);
            let h = mip_extent(texture_height as nat, mip_level as nat);
            &&& r is Some <==> round_up(4 * w, COPY_ROW_ALIGNMENT as nat) <= u32::MAX
            &&& r matches Some(l) ==> l == LevelLayout {
                width: w as u32,
                height: h as u32,
                bytes_per_row: (4 * w) as u32,
                padded_bytes_per_row: round_up(4 * w, COPY_ROW_ALIGNMENT as nat) as u32,
            }
        }),
{
    let width = mip_level_size(texture_width, mip_level);
    let height = mip_level_size(texture_height, mip_level);
    let bytes_per_row: u64 = 4 * (width as u64);
    let groups: u64 = bytes_per_row / (COPY_ROW_ALIGNMENT as u64) + if bytes_per_row % (
    COPY_ROW_ALIGNMENT as u64) == 0 {
        0
    } else {
        1
    };
    let padded: u64 = groups * (COPY_ROW_ALIGNMENT as u64);
    if padded > u32::MAX as u64 {
        return None;
    }
    Some(
        LevelLayout {
            width,
            height,
            bytes_per_row: bytes_per_row as u32,
            padded_bytes_per_row: padded as u32,
        },
    )
}

/// Byte `i` of the packed rows of a read-back buffer with the given pitches.
pub open spec fn unpadded_byte(data: Seq<u8>, bytes_per_row: nat, padded_bytes_per_row: nat, i: int) -> u8 {
    data[(i / (bytes_per_row as int)) * padded_bytes_per_row + i % (bytes_per_row as int)]
}

proof fn lemma_row_position(row_len: nat, pitch: nat, rows: nat, y: nat, k: nat)
    requires
        k < row_len,
        row_len <= pitch,
        y < rows,
    ensures
        ({
            let i = (y * row_len + k) as int;
            &&& i / (row_len as int) == y
            &&& i % (row_len as int) == k
            &&& y * pitch + k < pitch * rows
        }),
{
    lemma_fundamental_div_mod_converse((y * row_len + k) as int, row_len as int, y as int, k as int);
    assert(y * pitch + k < pitch * rows) by (nonlinear_arith)
        requires
            k < row_len,
            row_len <= pitch,
            y < rows,
    ;
}

/// The pixel rows of a read-back buffer without their padding: each row of
/// `padded_bytes_per_row` bytes keeps its first `bytes_per_row`. There is none
/// when the buffer does not hold `height` padded rows, or when the packed
/// pitch exceeds the padded one.
pub fn unpad_rows(data: &Vec<u8>, layout: &LevelLayout) -> (r: Option<Vec<u8>>)
    ensures
        r is Some <==> (layout.bytes_per_row <= layout.padded_bytes_per_row && data@.len()
            == layout.padded_bytes_per_row * layout.height),
        r matches Some(rows) ==> rows@ == Seq::new(
            (layout.bytes_per_row * layout.height) as nat,
            |i: int|
                unpadded_byte(
                    data@,
                    layout.bytes_per_row as nat,
                    layout.padded_bytes_per_row as nat,
                    i,
                ),
        ),
{
    let row_len = layout.bytes_per_row;
    let pitch = layout.padded_bytes_per_row;
    let height = layout.height;
    if row_len > pitch || data.len() as u64 != layout.buffer_size() {
        return None;
    }
    let ghost bytes = data@;
    let mut rows: Vec<u8> = Vec::new();
    let mut y: u32 = 0;
    while y < height
        invariant
            row_len <= pitch,
            bytes == data@,
            bytes.len() == pitch * height,
            y <= height,
            rows@.len() == y * row_len,
            forall|i: int|
                0 <= i < rows@.len() ==> rows@[i] == unpadded_byte(
                    bytes,
                    row_len as nat,
                    pitch as nat,
                    i,
                ),
        decreases height - y,
    {
        let mut k: u32 = 0;
        while k < row_len
            invariant
                row_len <= pitch,
                bytes == data@,
                bytes.len() == pitch * height,
                y < height,
                k <= row_len,
                rows@.len() == y * row_len + k,
                forall|i: int|
                    0 <= i < rows@.len() ==> rows@[i] == unpadded_byte(
                        bytes,
                        row_len as nat,
                        pitch as nat,
                        i,
                    ),
            decreases row_len - k,
        {
            proof {
                lemma_row_position(row_len as nat, pitch as nat, height as nat, y as nat, k as nat);
            }
            // The length, a usize, bounds the index computed below.
            let _data_len = data.len();
            let index: usize = (y as usize) * (pitch as usize) + (k as usize);
            rows.push(data[index]);
            k = k + 1;
        }
        assert(y * row_len + row_len == (y + 1) * row_len) by (nonlinear_arith);
        y = y + 1;
    }
    assert(rows@ =~= Seq::new(
        (row_len * height) as nat,
        |i: int| unpadded_byte(bytes, row_len as nat, pitch as nat, i),
    )) by {
        assert(height * row_len == row_len * height) by (nonlinear_arith);
    }
    Some(rows)
}

} // verus!
