//! Column-major rasters: dots, packing into the printhead, calibration patterns.
//!
//! A raster is a run of columns along the feed. Every column has the same number
//! of bytes; dot `x` across the head is bit `x % 8` (least significant first) of
//! byte `x / 8` of its column.

use vstd::prelude::*;

verus! {

/// Bit `k` of a byte.
pub open spec fn bit(b: u8, k: int) -> bool {
    (b >> (k as u8)) & 1 == 1
}

/// The dot at `x` across the head in column `col`.
pub open spec fn dot(raster: Seq<u8>, bytes_per_col: int, col: int, x: int) -> bool {
    bit(raster[col * bytes_per_col + x / 8], x % 8)
}

/// Bytes that `dots` dots take.
pub open spec fn dot_bytes(dots: int) -> int {
    (dots + 7) / 8
}

proof fn lemma_bit_of_zero(k: u8)
    requires
        k < 8,
    ensures
        !bit(0, k as int),
{
    assert((0u8 >> k) & 1 == 0) by (bit_vector)
        requires
            k < 8,
    ;
}

proof fn lemma_bit_set(b: u8, k: u8, j: u8)
    requires
        k < 8,
        j < 8,
    ensures
        bit(b | (1u8 << k), j as int) == (bit(b, j as int) || j == k),
{
    assert((((b | (1u8 << k)) >> j) & 1 == 1) == ((b >> j) & 1 == 1 || j == k)) by (bit_vector)
        requires
            k < 8,
            j < 8,
    ;
}

/// Two places in a raster share a byte only in the same column.
proof fn lemma_same_byte(w: int, c1: int, b1: int, c2: int, b2: int)
    requires
        0 <= b1 < w,
        0 <= b2 < w,
        c1 * w + b1 == c2 * w + b2,
    ensures
        c1 == c2,
        b1 == b2,
{
    assert(c1 == c2) by (nonlinear_arith)
        requires
            0 <= b1 < w,
            0 <= b2 < w,
            c1 * w + b1 == c2 * w + b2,
    ;
}

/// A place within the raster has its byte within the raster.
proof fn lemma_byte_in_raster(w: int, cols: int, col: int, b: int)
    requires
        0 <= col < cols,
        0 <= b < w,
    ensures
        0 <= col * w,
        0 <= col * w + b < cols * w,
{
    assert(0 <= col * w && col * w + b < cols * w) by (nonlinear_arith)
        requires
            0 <= col < cols,
            0 <= b < w,
    ;
}

/// A blank raster of `cols` columns.
fn blank_raster(cols: usize, bytes_per_col: usize) -> (raster: Vec<u8>)
    requires
        cols * bytes_per_col <= usize::MAX,
    ensures
        raster@.len() == cols * bytes_per_col,
        forall|c: int, x: int|
            0 <= c < cols && 0 <= x < 8 * bytes_per_col ==> !(#[trigger] dot(
                raster@,
                bytes_per_col as int,
                c,
                x,
            )),
{
    let raster: Vec<u8> = vec![0u8; cols * bytes_per_col];
    proof {
        assert forall|c: int, x: int| 0 <= c < cols && 0 <= x < 8 * bytes_per_col implies !(
        #[trigger] dot(raster@, bytes_per_col as int, c, x)) by {
            lemma_byte_in_raster(bytes_per_col as int, cols as int, c, x / 8);
            lemma_bit_of_zero((x % 8) as u8);
        }
    }
    raster
}

/// Set one dot.
fn set_dot(raster: &mut Vec<u8>, bytes_per_col: usize, col: usize, x: usize)
    requires
        x / 8 < bytes_per_col,
        col * bytes_per_col + x / 8 < old(raster)@.len(),
    ensures
        final(raster)@.len() == old(raster)@.len(),
        forall|c: int, y: int|
            0 <= y < 8 * bytes_per_col && 0 <= c && c * bytes_per_col + y / 8 < old(raster)@.len()
                ==> #[trigger] dot(final(raster)@, bytes_per_col as int, c, y) == (dot(
                old(raster)@,
                bytes_per_col as int,
                c,
                y,
            ) || c == col && y == x),
{
    proof {
        assert(0 <= col * bytes_per_col) by (nonlinear_arith);
        assert(raster.len() == raster@.len());
    }
    let idx: usize = col * bytes_per_col + x / 8;
    let k: u8 = (x % 8) as u8;
    let ghost before = raster@;
    let b: u8 = raster[idx];
    raster[idx] = b | (1u8 << k);
    proof {
        let w = bytes_per_col as int;
        assert forall|c: int, y: int|
            0 <= y < 8 * bytes_per_col && 0 <= c && c * bytes_per_col + y / 8 < before.len() implies #[trigger] dot(raster@, w, c, y) == (dot(before, w, c, y) || c == col && y == x) by {
            if c * w + y / 8 == idx {
                lemma_same_byte(w, c, y / 8, col as int, x as int / 8);
                lemma_bit_set(b, k, (y % 8) as u8);
            } else {
                assert(0 <= c * w) by (nonlinear_arith)
                    requires
                        0 <= c,
                        0 <= w,
                ;
            }
        }
    }
}

/// The dot that the packed raster shows at `x` in column `col`: the input's, as
/// far as the input is wide and long enough.
pub open spec fn packed_dot(input: Seq<u8>, width: int, col: int, x: int) -> bool {
    &&& x < width
    &&& col * dot_bytes(width) + x / 8 < input.len()
    &&& dot(input, dot_bytes(width), col, x)
}

/// Pack a column-major raster into the E-series printhead: content is
/// left-aligned, dots past the head are dropped. Returns the packed raster and
/// its bytes per column.
pub fn eseries_pack(
    input: &[u8],
    num_cols: u32,
    input_width_dots: u32,
    head_dots: u32,
) -> (packed: (Vec<u8>, u32))
    requires
        head_dots % 8 == 0,
        num_cols * (head_dots / 8) <= usize::MAX,
        num_cols * dot_bytes(input_width_dots as int) <= usize::MAX,
    ensures
        packed.1 == head_dots / 8,
        is_packed(
            packed.0@,
            input@,
            num_cols as int,
            input_width_dots as int,
            head_dots as int,
        ),
        packed.0@.len() == num_cols * packed.1,
        forall|c: int, x: int|
            0 <= c < num_cols && 0 <= x < head_dots ==> #[trigger] dot(
                packed.0@,
                packed.1 as int,
                c,
                x,
            ) == packed_dot(input@, input_width_dots as int, c, x),
{
    let out_bpl: usize = (head_dots / 8) as usize;
    let in_bpl: usize = (input_width_dots / 8 + if input_width_dots % 8 == 0 {
        0
    } else {
        1u32
    }) as usize;
    let copy_dots: usize = if input_width_dots < head_dots {
        input_width_dots as usize
    } else {
        head_dots as usize
    };
    let cols: usize = num_cols as usize;
    let mut output: Vec<u8> = blank_raster(cols, out_bpl);
    let ghost w = input_width_dots as int;
    let mut col: usize = 0;
    while col < cols
        invariant
            cols == num_cols,
            col <= cols,
            out_bpl == head_dots / 8,
            head_dots % 8 == 0,
            w == input_width_dots,
            in_bpl == dot_bytes(w),
            cols * in_bpl <= usize::MAX,
            copy_dots <= head_dots,
            copy_dots <= w,
            copy_dots == w || copy_dots == head_dots,
            output@.len() == cols * out_bpl,
            output@.len() <= usize::MAX,
            forall|c: int, x: int|
                0 <= c < cols && 0 <= x < head_dots ==> #[trigger] dot(
                    output@,
                    out_bpl as int,
                    c,
                    x,
                ) == (c < col && packed_dot(input@, w, c, x)),
        decreases cols - col,
    {
        let mut d: usize = 0;
        while d < copy_dots
            invariant
                cols == num_cols,
                col < cols,
                out_bpl == head_dots / 8,
                head_dots % 8 == 0,
                w == input_width_dots,
                in_bpl == dot_bytes(w),
                cols * in_bpl <= usize::MAX,
                d <= copy_dots <= head_dots,
                copy_dots <= w,
                output@.len() == cols * out_bpl,
                output@.len() <= usize::MAX,
                forall|c: int, x: int|
                    0 <= c < cols && 0 <= x < head_dots ==> #[trigger] dot(
                        output@,
                        out_bpl as int,
                        c,
                        x,
                    ) == ((c < col || c == col && x < d) && packed_dot(input@, w, c, x)),
            decreases copy_dots - d,
        {
            proof {
                lemma_byte_in_raster(in_bpl as int, cols as int, col as int, d as int / 8);
                lemma_byte_in_raster(out_bpl as int, cols as int, col as int, d as int / 8);
            }
            let in_byte: usize = col * in_bpl + d / 8;
            let ghost before = output@;
            let k: u8 = (d % 8) as u8;
            if in_byte < input.len() && (input[in_byte] >> k) & 1 == 1 {
                set_dot(&mut output, out_bpl, col, d);
            }
            proof {
                assert forall|c: int, x: int| 0 <= c < cols && 0 <= x < head_dots implies #[trigger] dot(
                    output@,
                    out_bpl as int,
                    c,
                    x,
                ) == ((c < col || c == col && x < d + 1) && packed_dot(input@, w, c, x)) by {
                    lemma_byte_in_raster(out_bpl as int, cols as int, c, x / 8);
                    assert(dot(before, out_bpl as int, c, x) == ((c < col || c == col && x < d)
                        && packed_dot(input@, w, c, x)));
                }
            }
            d += 1;
        }
        col += 1;
    }
    (output, out_bpl as u32)
}

/// The calibration pattern: a two-dot border, a diagonal, and six-dot ticks every
/// ten dots along the first edges; or everything, if it is solid.
pub open spec fn pattern_dot(width: int, length: int, solid: bool, x: int, y: int) -> bool {
    ||| solid
    ||| x < 2
    ||| x >= width - 2
    ||| y < 2
    ||| y >= length - 2
    ||| x * (length - 1) / width == y
    ||| y % 10 == 0 && x < 6
    ||| x % 10 == 0 && y < 6
}

/// The dot at `x` in column `col` of a calibration raster whose pattern is
/// preceded by `lead` blank columns.
pub open spec fn calibration_dot(
    width: int,
    length: int,
    solid: bool,
    lead: int,
    col: int,
    x: int,
) -> bool {
    &&& lead <= col < lead + length
    &&& x < width
    &&& pattern_dot(width, length, solid, x, col - lead)
}

/// `raster` is the calibration raster of these sizes: `lead` blank columns, the
/// pattern, `trail` blank columns.
pub open spec fn is_calibration(
    raster: Seq<u8>,
    width: int,
    length: int,
    solid: bool,
    lead: int,
    trail: int,
) -> bool {
    let w = dot_bytes(width);
    &&& raster.len() == w * (lead + length + trail)
    &&& forall|c: int, x: int|
        0 <= c < lead + length + trail && 0 <= x < 8 * w ==> #[trigger] dot(raster, w, c, x)
            == calibration_dot(width, length, solid, lead, c, x)
}

/// The sizes for which the pattern can be computed in 32 bits and stored.
pub open spec fn calibration_fits(width: int, length: int, lead: int, trail: int) -> bool {
    &&& lead + length + trail <= u32::MAX
    &&& dot_bytes(width) * (lead + length + trail) <= usize::MAX
    &&& width > 0 && length > 0 ==> (width - 1) * (length - 1) <= u32::MAX
}

/// Whether a calibration raster of these sizes can be drawn.
pub fn can_calibrate(width: u32, length: u32, lead: u32, trail: u32) -> (b: bool)
    ensures
        b == calibration_fits(width as int, length as int, lead as int, trail as int),
{
    let total: u64 = lead as u64 + length as u64 + trail as u64;
    if total > u32::MAX as u64 {
        return false;
    }
    let w: u64 = (width as u64 + 7) / 8;
    proof {
        assert(w * total <= 0x2000_0000 * 0xFFFF_FFFF) by (nonlinear_arith)
            requires
                w <= 0x2000_0000,
                total <= 0xFFFF_FFFF,
        ;
    }
    if w * total > usize::MAX as u64 {
        return false;
    }
    if width == 0 || length == 0 {
        return true;
    }
    proof {
        assert((width - 1) * (length - 1) <= 0xFFFF_FFFE * 0xFFFF_FFFE) by (nonlinear_arith)
            requires
                1 <= width <= 0xFFFF_FFFF,
                1 <= length <= 0xFFFF_FFFF,
        ;
    }
    (width as u64 - 1) * (length as u64 - 1) <= u32::MAX as u64
}

/// Decide one dot of the calibration pattern.
fn pattern_at(width: u32, length: u32, solid: bool, x: u32, y: u32) -> (on: bool)
    requires
        x < width,
        y < length,
        (width - 1) * (length - 1) <= u32::MAX,
    ensures
        on == pattern_dot(width as int, length as int, solid, x as int, y as int),
{
    proof {
        assert(0 <= x * (length - 1) <= (width - 1) * (length - 1)) by (nonlinear_arith)
            requires
                0 <= x <= width - 1,
                1 <= length,
        ;
    }
    let diagonal: u32 = x * (length - 1) / width;
    solid || x < 2 || x >= width - 2 || y < 2 || y >= length - 2 || diagonal == y || (y % 10 == 0
        && x < 6) || (x % 10 == 0 && y < 6)
}

/// Draw the calibration pattern of `width` by `length` dots with blank columns
/// before and behind it. Returns the raster and its bytes per column.
pub fn calibration_raster(
    width: u32,
    length: u32,
    solid: bool,
    lead: u32,
    trail: u32,
) -> (drawn: (Vec<u8>, u32))
    requires
        calibration_fits(width as int, length as int, lead as int, trail as int),
    ensures
        drawn.1 == dot_bytes(width as int),
        is_calibration(
            drawn.0@,
            width as int,
            length as int,
            solid,
            lead as int,
            trail as int,
        ),
{
    let bpl: u32 = width / 8 + if width % 8 == 0 {
        0
    } else {
        1u32
    };
    let total: u32 = lead + length + trail;
    let w: usize = bpl as usize;
    let cols: usize = total as usize;
    proof {
        assert(cols * w == w * cols) by (nonlinear_arith);
    }
    let mut raster: Vec<u8> = blank_raster(cols, w);
    let mut y: u32 = 0;
    while y < length
        invariant
            y <= length,
            calibration_fits(width as int, length as int, lead as int, trail as int),
            cols == lead + length + trail,
            w == dot_bytes(width as int),
            raster@.len() == cols * w,
            forall|c: int, x: int|
                0 <= c < cols && 0 <= x < 8 * w ==> #[trigger] dot(raster@, w as int, c, x) == (c
                    < lead + y && calibration_dot(
                    width as int,
                    length as int,
                    solid,
                    lead as int,
                    c,
                    x,
                )),
        decreases length - y,
    {
        let mut x: u32 = 0;
        while x < width
            invariant
                y < length,
                x <= width,
                calibration_fits(width as int, length as int, lead as int, trail as int),
                cols == lead + length + trail,
                w == dot_bytes(width as int),
                raster@.len() == cols * w,
                forall|c: int, z: int|
                    0 <= c < cols && 0 <= z < 8 * w ==> #[trigger] dot(raster@, w as int, c, z)
                        == ((c < lead + y || c == lead + y && z < x) && calibration_dot(
                        width as int,
                        length as int,
                        solid,
                        lead as int,
                        c,
                        z,
                    )),
            decreases width - x,
        {
            let ghost before = raster@;
            proof {
                lemma_byte_in_raster(w as int, cols as int, lead + y, x as int / 8);
            }
            if pattern_at(width, length, solid, x, y) {
                set_dot(&mut raster, w, (lead + y) as usize, x as usize);
            }
            proof {
                assert forall|c: int, z: int| 0 <= c < cols && 0 <= z < 8 * w implies #[trigger] dot(
                    raster@,
                    w as int,
                    c,
                    z,
                ) == ((c < lead + y || c == lead + y && z < x + 1) && calibration_dot(
                    width as int,
                    length as int,
                    solid,
                    lead as int,
                    c,
                    z,
                )) by {
                    lemma_byte_in_raster(w as int, cols as int, c, z / 8);
                    assert(dot(before, w as int, c, z) == ((c < lead + y || c == lead + y && z < x)
                        && calibration_dot(
                        width as int,
                        length as int,
                        solid,
                        lead as int,
                        c,
                        z,
                    )));
                }
            }
            x += 1;
        }
        y += 1;
    }
    proof {
        assert(cols * w == w * cols) by (nonlinear_arith);
    }
    (raster, bpl)
}

/// A raster is determined by its dots: two rasters of the same shape that show
/// the same dots are the same bytes.
pub proof fn law_dots_determine_raster(a: Seq<u8>, b: Seq<u8>, bytes_per_col: int, cols: int)
    requires
        0 < bytes_per_col,
        0 <= cols,
        a.len() == cols * bytes_per_col,
        b.len() == a.len(),
        forall|c: int, x: int|
            0 <= c < cols && 0 <= x < 8 * bytes_per_col ==> #[trigger] dot(a, bytes_per_col, c, x)
                == dot(b, bytes_per_col, c, x),
    ensures
        a == b,
{
    assert forall|i: int| 0 <= i < a.len() implies a[i] == b[i] by {
        let c = i / bytes_per_col;
        let r = i % bytes_per_col;
        assert(i == c * bytes_per_col + r && 0 <= c < cols && 0 <= r < bytes_per_col) by (
        nonlinear_arith)
            requires
                c == i / bytes_per_col,
                r == i % bytes_per_col,
                0 < bytes_per_col,
                0 <= i < cols * bytes_per_col,
        ;
        assert forall|k: u8| k < 8 implies #[trigger] bit(a[i], k as int) == bit(
            b[i],
            k as int,
        ) by {
            let x = 8 * r + k;
            assert(dot(a, bytes_per_col, c, x) == dot(b, bytes_per_col, c, x));
            assert(x / 8 == r && x % 8 == k as int);
        }
        lemma_bits_determine_byte(a[i], b[i]);
    }
    assert(a =~= b);
}

proof fn lemma_bits_determine_byte(a: u8, b: u8)
    requires
        forall|k: u8| k < 8 ==> #[trigger] bit(a, k as int) == bit(b, k as int),
    ensures
        a == b,
{
    assert(bit(a, 0u8 as int) == bit(b, 0u8 as int));
    assert(bit(a, 1u8 as int) == bit(b, 1u8 as int));
    assert(bit(a, 2u8 as int) == bit(b, 2u8 as int));
    assert(bit(a, 3u8 as int) == bit(b, 3u8 as int));
    assert(bit(a, 4u8 as int) == bit(b, 4u8 as int));
    assert(bit(a, 5u8 as int) == bit(b, 5u8 as int));
    assert(bit(a, 6u8 as int) == bit(b, 6u8 as int));
    assert(bit(a, 7u8 as int) == bit(b, 7u8 as int));
    assert(a == b) by (bit_vector)
        requires
            ((a >> 0u8) & 1 == 1) == ((b >> 0u8) & 1 == 1),
            ((a >> 1u8) & 1 == 1) == ((b >> 1u8) & 1 == 1),
            ((a >> 2u8) & 1 == 1) == ((b >> 2u8) & 1 == 1),
            ((a >> 3u8) & 1 == 1) == ((b >> 3u8) & 1 == 1),
            ((a >> 4u8) & 1 == 1) == ((b >> 4u8) & 1 == 1),
            ((a >> 5u8) & 1 == 1) == ((b >> 5u8) & 1 == 1),
            ((a >> 6u8) & 1 == 1) == ((b >> 6u8) & 1 == 1),
            ((a >> 7u8) & 1 == 1) == ((b >> 7u8) & 1 == 1),
    ;
}

/// A byte is the sum of its set bits, bit `k` counting two to the `k`: the first dot
/// is the least significant bit.
pub proof fn law_byte_is_its_bits(b: u8)
    ensures
        b == (if bit(b, 0) { 1int } else { 0 }) + (if bit(b, 1) { 2int } else { 0 }) + (if bit(b, 2) { 4int } else { 0 })
            + (if bit(b, 3) { 8int } else { 0 }) + (if bit(b, 4) { 16int } else { 0 }) + (if bit(b, 5) { 32int } else { 0 })
            + (if bit(b, 6) { 64int } else { 0 }) + (if bit(b, 7) { 128int } else { 0 }),
{
    assert(b == (if (b >> 0u8) & 1 == 1 { 1u8 } else { 0 }) + (if (b >> 1u8) & 1 == 1 { 2u8 } else { 0 })
        + (if (b >> 2u8) & 1 == 1 { 4u8 } else { 0 }) + (if (b >> 3u8) & 1 == 1 { 8u8 } else { 0 })
        + (if (b >> 4u8) & 1 == 1 { 16u8 } else { 0 }) + (if (b >> 5u8) & 1 == 1 { 32u8 } else { 0 })
        + (if (b >> 6u8) & 1 == 1 { 64u8 } else { 0 }) + (if (b >> 7u8) & 1 == 1 { 128u8 } else { 0 }))
        by (bit_vector);
}

/// Dots take the bytes they need and no more: eight to a byte.
pub proof fn law_dots_fill_bytes(dots: int)
    requires
        0 <= dots,
    ensures
        dots <= 8 * dot_bytes(dots) < dots + 8,
{
}

/// `packed` is what packing makes of `input`.
pub open spec fn is_packed(
    packed: Seq<u8>,
    input: Seq<u8>,
    num_cols: int,
    width: int,
    head: int,
) -> bool {
    &&& packed.len() == num_cols * (head / 8)
    &&& forall|c: int, x: int|
        0 <= c < num_cols && 0 <= x < head ==> #[trigger] dot(packed, head / 8, c, x)
            == packed_dot(input, width, c, x)
}

/// Packing leaves every dot where it is across the head: bit `x % 8` of byte `x / 8`
/// of a packed column is that bit of that byte of the input column, for every dot
/// that the input has, and clear for every other.
pub proof fn law_packing_keeps_each_dot(
    packed: Seq<u8>,
    input: Seq<u8>,
    num_cols: int,
    width: int,
    head: int,
    c: int,
    x: int,
)
    requires
        head % 8 == 0,
        0 <= width,
        is_packed(packed, input, num_cols, width, head),
        0 <= c < num_cols,
        0 <= x < head,
    ensures
        ({
            let from = c * ((width + 7) / 8) + x / 8;
            let to = c * (head / 8) + x / 8;
            let k = (x % 8) as u8;
            ((packed[to] >> k) & 1 == 1) == (x < width && from < input.len() && (input[from] >> k)
                & 1 == 1)
        }),
{
    assert(dot(packed, head / 8, c, x) == packed_dot(input, width, c, x));
}

/// A label that fits the head keeps its bytes: where the width is a whole number of
/// bytes and no more than the head, each packed column starts with the bytes of the
/// input column, and the rest of it is blank.
pub proof fn law_packing_keeps_whole_bytes(
    packed: Seq<u8>,
    input: Seq<u8>,
    num_cols: int,
    width: int,
    head: int,
    c: int,
    i: int,
)
    requires
        head % 8 == 0,
        width % 8 == 0,
        0 <= width <= head,
        is_packed(packed, input, num_cols, width, head),
        input.len() == num_cols * (width / 8),
        0 <= c < num_cols,
        0 <= i < head / 8,
    ensures
        packed[c * (head / 8) + i] == if i < width / 8 {
            input[c * (width / 8) + i]
        } else {
            0u8
        },
{
    let to = c * (head / 8) + i;
    let from = c * (width / 8) + i;
    assert((width + 7) / 8 == width / 8);
    let b: u8 = if i < width / 8 {
        input[from]
    } else {
        0u8
    };
    if i < width / 8 {
        lemma_byte_in_raster(width / 8, num_cols, c, i);
    }
    assert forall|k: u8| k < 8 implies #[trigger] bit(packed[to], k as int) == bit(
        b,
        k as int,
    ) by {
        let x = 8 * i + k;
        assert(x / 8 == i && x % 8 == k as int);
        law_packing_keeps_each_dot(packed, input, num_cols, width, head, c, x);
        lemma_bit_of_zero(k);
    }
    lemma_bits_determine_byte(packed[to], b);
}

/// Which dots the calibration pattern has: those within two dots of any edge; those
/// on the diagonal, which is in column `y` for the dots `x` with
/// `y * width <= x * (length - 1) < (y + 1) * width`; and the six dots inward from
/// either first edge at every multiple of ten; or all, if it is solid.
pub proof fn law_pattern_has_border_diagonal_and_ticks(
    width: int,
    length: int,
    solid: bool,
    x: int,
    y: int,
    t: int,
)
    requires
        0 <= x < width,
        0 <= y < length,
    ensures
        solid ==> pattern_dot(width, length, solid, x, y),
        x <= 1 || y <= 1 || width - 1 - x <= 1 || length - 1 - y <= 1 ==> pattern_dot(
            width,
            length,
            solid,
            x,
            y,
        ),
        y * width <= x * (length - 1) < (y + 1) * width ==> pattern_dot(width, length, solid, x, y),
        y == 10 * t && x <= 5 ==> pattern_dot(width, length, solid, x, y),
        x == 10 * t && y <= 5 ==> pattern_dot(width, length, solid, x, y),
        pattern_dot(width, length, solid, x, y) ==> {
            ||| solid
            ||| x <= 1 || y <= 1 || width - 1 - x <= 1 || length - 1 - y <= 1
            ||| y * width <= x * (length - 1) < (y + 1) * width
            ||| y % 10 == 0 && x <= 5
            ||| x % 10 == 0 && y <= 5
        },
{
    let q = x * (length - 1) / width;
    assert(q == y <==> y * width <= x * (length - 1) < (y + 1) * width) by (nonlinear_arith)
        requires
            q == x * (length - 1) / width,
            0 < width,
    ;
}

/// A calibration raster shows the scale: at every multiple of ten along the feed the
/// first six dots of the column are set, and at every multiple of ten across the head
/// the dot is set in the first six columns.
pub proof fn law_calibration_shows_the_scale(
    raster: Seq<u8>,
    width: int,
    length: int,
    solid: bool,
    lead: int,
    trail: int,
    t: int,
    k: int,
)
    requires
        0 <= lead,
        0 <= trail,
        0 <= k < 6,
        0 <= t,
        is_calibration(raster, width, length, solid, lead, trail),
    ensures
        10 * t < length && k < width ==> dot(raster, (width + 7) / 8, lead + 10 * t, k),
        10 * t < width && k < length ==> dot(raster, (width + 7) / 8, lead + k, 10 * t),
{
    let w = dot_bytes(width);
    if 10 * t < length && k < width {
        law_pattern_has_border_diagonal_and_ticks(width, length, solid, k, 10 * t, t);
        assert(dot(raster, w, lead + 10 * t, k) == calibration_dot(
            width,
            length,
            solid,
            lead,
            lead + 10 * t,
            k,
        ));
    }
    if 10 * t < width && k < length {
        law_pattern_has_border_diagonal_and_ticks(width, length, solid, 10 * t, k, t);
        assert(dot(raster, w, lead + k, 10 * t) == calibration_dot(
            width,
            length,
            solid,
            lead,
            lead + k,
            10 * t,
        ));
    }
}

/// A calibration raster is the pattern between blank columns: dot `x` of column `y` of
/// the pattern stands in bit `x % 8` of byte `x / 8` of column `lead + y`, dots past the
/// width are blank, and so are the `lead` columns before it and the `trail` behind it.
pub proof fn law_calibration_places_the_pattern(
    raster: Seq<u8>,
    width: int,
    length: int,
    solid: bool,
    lead: int,
    trail: int,
    col: int,
    x: int,
)
    requires
        0 <= lead,
        0 <= trail,
        0 <= length,
        0 <= width,
        is_calibration(raster, width, length, solid, lead, trail),
        0 <= col < lead + length + trail,
        0 <= x < 8 * ((width + 7) / 8),
    ensures
        raster.len() == (width + 7) / 8 * (lead + length + trail),
        ({
            let on = (raster[col * ((width + 7) / 8) + x / 8] >> ((x % 8) as u8)) & 1 == 1;
            &&& x >= width || col < lead || col >= lead + length ==> !on
            &&& x < width && lead <= col < lead + length ==> on == pattern_dot(
                width,
                length,
                solid,
                x,
                col - lead,
            )
        }),
{
    let w = dot_bytes(width);
    assert(dot(raster, w, col, x) == calibration_dot(width, length, solid, lead, col, x));
}

/// Any pattern whose sides and feeds fit 16 bits can be drawn.
pub proof fn law_usual_patterns_fit(width: int, length: int, lead: int, trail: int)
    requires
        0 <= width <= 65535,
        0 <= length <= 65535,
        0 <= lead <= 65535,
        0 <= trail <= 65535,
    ensures
        calibration_fits(width, length, lead, trail),
{
    let w = dot_bytes(width);
    let total = lead + length + trail;
    assert(w * total <= 8192 * 196605) by (nonlinear_arith)
        requires
            0 <= w <= 8192,
            0 <= total <= 196605,
    ;
    if width > 0 && length > 0 {
        assert((width - 1) * (length - 1) <= 65534 * 65534) by (nonlinear_arith)
            requires
                0 <= width - 1 <= 65534,
                0 <= length - 1 <= 65534,
        ;
    }
}

} // verus!
