//! Print buffers: the 4096-byte units of a page, with their 14-byte header.

use vstd::prelude::*;

use crate::wire;
use crate::wire::{hi, lo};

verus! {

/// Max image bytes per print buffer.
pub const MAX_BUF_DATA: usize = 4074;

/// Print buffer size.
pub const PRINT_BUF_SIZE: usize = 4096;

/// Header size in a print buffer.
pub const PRINT_BUF_HEADER: usize = 14;

/// Largest margin (in dots) that the header can carry.
pub const MARGIN_MAX_DOTS: u16 = 900;

/// Largest density that the energy byte can carry when it mirrors the density.
pub const MAX_DENSITY: u8 = 15;

/// Distance between the image bytes that the checksum samples.
pub const CHECKSUM_STRIDE: usize = 256;

/// Fields of the page-register bits.
#[derive(Debug, Clone, Copy, Default)]
pub struct PageRegBits {
    /// First buffer of the page.
    pub page_st: bool,
    /// Last buffer of the page.
    pub page_end: bool,
    /// Last buffer of the job.
    pub prt_end: bool,
    /// Cut mode (3 bits).
    pub cut: u8,
    /// Paper saving.
    pub savepaper: bool,
    /// First-cut mode (2 bits).
    pub first_cut: u8,
    /// Density (4 bits).
    pub nodu: u8,
    /// Material type (2 bits).
    pub mat: u8,
}

/// 1 for a set flag, 0 for a clear one.
pub open spec fn flag(b: bool) -> int {
    if b {
        1
    } else {
        0
    }
}

/// The page-register bits: each field in its own bit range, cut to its width.
pub open spec fn page_reg_bits(p: PageRegBits) -> Seq<u8> {
    seq![
        (2 * flag(p.page_st) + 4 * flag(p.page_end) + 8 * flag(p.prt_end) + 16 * (p.cut % 8) + 128
            * flag(p.savepaper)) as u8,
        (p.first_cut % 4 + 4 * (p.nodu % 16) + 64 * (p.mat % 4)) as u8,
    ]
}

/// Build the page-register bits of a print-buffer header.
///
/// Byte 0: bit 1 page start, bit 2 page end, bit 3 print end, bits 4-6 cut mode,
/// bit 7 paper saving. Byte 1: bits 0-1 first cut, bits 2-5 density, bits 6-7
/// material type.
pub fn build_page_reg_bits(p: &PageRegBits) -> (bits: [u8; 2])
    ensures
        bits@ == page_reg_bits(*p),
{
    let st: u8 = if p.page_st {
        0x02
    } else {
        0
    };
    let end: u8 = if p.page_end {
        0x04
    } else {
        0
    };
    let prt: u8 = if p.prt_end {
        0x08
    } else {
        0
    };
    let save: u8 = if p.savepaper {
        0x80
    } else {
        0
    };
    let cut: u8 = p.cut;
    let first_cut: u8 = p.first_cut;
    let nodu: u8 = p.nodu;
    let mat: u8 = p.mat;
    let b0: u8 = (((st | end | prt) & 0x0F) | ((cut & 0x07) << 4)) | save;
    let b1: u8 = (first_cut & 0x03) | ((nodu & 0x0F) << 2) | ((mat & 0x03) << 6);
    proof {
        assert(((((st | end | prt) & 0x0F) | ((cut & 0x07) << 4)) | save) == st + end + prt + 16 * (
        cut % 8) + save) by (bit_vector)
            requires
                st == 0 || st == 0x02,
                end == 0 || end == 0x04,
                prt == 0 || prt == 0x08,
                save == 0 || save == 0x80,
        ;
        assert(((first_cut & 0x03) | ((nodu & 0x0F) << 2) | ((mat & 0x03) << 6)) == first_cut % 4
            + 4 * (nodu % 16) + 64 * (mat % 4)) by (bit_vector);
    }
    let bits: [u8; 2] = [b0, b1];
    assert(bits@ =~= page_reg_bits(*p));
    bits
}

/// What a print buffer is built from.
pub struct PrintBufferParams<'a> {
    /// Column-major raster of this buffer.
    pub image_data: &'a [u8],
    /// Bytes per raster column.
    pub per_line_byte: u8,
    /// Raster columns in this buffer.
    pub cols_in_buf: u16,
    /// First buffer of the page.
    pub page_st: bool,
    /// Last buffer of the page.
    pub page_end: bool,
    /// Last buffer of the job.
    pub prt_end: bool,
    /// Feed before the image, in dots.
    pub margin_top: u16,
    /// Feed after the image, in dots.
    pub margin_bottom: u16,
    /// Density field of the page-register bits.
    pub nodu: u8,
    /// Burn energy: `Some` is written as it is, `None` mirrors `nodu` up to
    /// [`MAX_DENSITY`].
    pub energy: Option<u8>,
    /// Cut mode.
    pub cut: u8,
    /// Material type.
    pub mat: u8,
}

/// The contents of a print buffer, as plain values.
pub struct BufferModel {
    /// Raster bytes.
    pub image: Seq<u8>,
    /// Bytes per raster column.
    pub per_line_byte: u8,
    /// Raster columns.
    pub cols: int,
    /// First buffer of the page.
    pub page_st: bool,
    /// Last buffer of the page.
    pub page_end: bool,
    /// Last buffer of the job.
    pub prt_end: bool,
    /// Feed before the image.
    pub margin_top: int,
    /// Feed after the image.
    pub margin_bottom: int,
    /// Density field.
    pub nodu: u8,
    /// Energy request.
    pub energy: Option<u8>,
    /// Cut mode.
    pub cut: u8,
    /// Material type.
    pub mat: u8,
}

impl<'a> View for PrintBufferParams<'a> {
    type V = BufferModel;

    open spec fn view(&self) -> BufferModel {
        BufferModel {
            image: self.image_data@,
            per_line_byte: self.per_line_byte,
            cols: self.cols_in_buf as int,
            page_st: self.page_st,
            page_end: self.page_end,
            prt_end: self.prt_end,
            margin_top: self.margin_top as int,
            margin_bottom: self.margin_bottom as int,
            nodu: self.nodu,
            energy: self.energy,
            cut: self.cut,
            mat: self.mat,
        }
    }
}

/// A margin as the header carries it: at least 1, at most [`MARGIN_MAX_DOTS`].
pub open spec fn header_margin(dots: int) -> int {
    if dots < 1 {
        1
    } else if dots > MARGIN_MAX_DOTS {
        MARGIN_MAX_DOTS as int
    } else {
        dots
    }
}

/// The energy byte: the request as it is, or the density up to [`MAX_DENSITY`].
pub open spec fn energy_byte(energy: Option<u8>, nodu: u8) -> u8 {
    match energy {
        Some(e) => e,
        None => if nodu < MAX_DENSITY {
            nodu
        } else {
            MAX_DENSITY
        },
    }
}

/// The twelve header bytes behind the checksum.
pub open spec fn buffer_header(m: BufferModel) -> Seq<u8> {
    page_reg_bits(
        PageRegBits {
            page_st: m.page_st,
            page_end: m.page_end,
            prt_end: m.prt_end,
            cut: m.cut,
            savepaper: false,
            first_cut: 0,
            nodu: m.nodu,
            mat: m.mat,
        },
    ) + wire::le16(m.cols) + seq![m.per_line_byte, 0u8] + wire::le16(header_margin(m.margin_top))
        + wire::le16(header_margin(m.margin_bottom)) + seq![energy_byte(m.energy, m.nodu), 0u8]
}

/// Sum of the bytes just before each of the first `n` stride boundaries of `buf`.
pub open spec fn stride_sum(buf: Seq<u8>, n: int) -> nat
    decreases n,
{
    if n <= 0 {
        0
    } else {
        stride_sum(buf, n - 1) + if n * 256 - 1 < buf.len() {
            buf[n * 256 - 1] as nat
        } else {
            0
        }
    }
}

/// Number of stride boundaries within header and declared raster.
pub open spec fn strides(m: BufferModel) -> int {
    (m.cols * m.per_line_byte + 14) / 256
}

/// The buffer with a blank checksum field.
pub open spec fn unsigned_buffer(m: BufferModel) -> Seq<u8> {
    wire::zeros(2) + buffer_header(m) + wire::padded(m.image, 4082)
}

/// The checksum: all header bytes behind it, and the sampled raster bytes.
pub open spec fn buffer_checksum(m: BufferModel) -> nat {
    wire::byte_sum(buffer_header(m)) + stride_sum(unsigned_buffer(m), strides(m))
}

/// A whole print buffer: checksum, header, raster (cut or zero-padded).
pub open spec fn print_buffer(m: BufferModel) -> Seq<u8> {
    wire::le16(buffer_checksum(m) as int) + buffer_header(m) + wire::padded(m.image, 4082)
}

/// A margin brought into the header's range.
fn clamp_margin(dots: u16) -> (r: u16)
    ensures
        r == header_margin(dots as int),
{
    if dots < 1 {
        1
    } else if dots > MARGIN_MAX_DOTS {
        MARGIN_MAX_DOTS
    } else {
        dots
    }
}

proof fn lemma_stride_sum_bound(buf: Seq<u8>, n: int)
    requires
        0 <= n,
        buf.len() == 4096,
    ensures
        stride_sum(buf, n) <= 255 * n,
        stride_sum(buf, n) <= 255 * 16,
    decreases n,
{
    if n > 0 {
        lemma_stride_sum_bound(buf, n - 1);
        if n > 16 {
            lemma_stride_sum_tail(buf, n);
            lemma_stride_sum_bound(buf, 16);
        }
    }
}

proof fn lemma_stride_sum_tail(buf: Seq<u8>, n: int)
    requires
        16 <= n,
        buf.len() == 4096,
    ensures
        stride_sum(buf, n) == stride_sum(buf, 16),
    decreases n,
{
    if n > 16 {
        lemma_stride_sum_tail(buf, n - 1);
    }
}

/// The twelve header bytes behind the checksum.
fn header_bytes(p: &PrintBufferParams) -> (h: [u8; 12])
    ensures
        h@ == buffer_header(p@),
{
    let bits = build_page_reg_bits(
        &PageRegBits {
            page_st: p.page_st,
            page_end: p.page_end,
            prt_end: p.prt_end,
            cut: p.cut,
            savepaper: false,
            first_cut: 0,
            nodu: p.nodu,
            mat: p.mat,
        },
    );
    let mt: u16 = clamp_margin(p.margin_top);
    let mb: u16 = clamp_margin(p.margin_bottom);
    let energy: u8 = match p.energy {
        Some(e) => e,
        None => if p.nodu < MAX_DENSITY {
            p.nodu
        } else {
            MAX_DENSITY
        },
    };
    let h: [u8; 12] = [
        bits[0],
        bits[1],
        lo(p.cols_in_buf),
        hi(p.cols_in_buf),
        p.per_line_byte,
        0,
        lo(mt),
        hi(mt),
        lo(mb),
        hi(mb),
        energy,
        0,
    ];
    assert(bits@.len() == 2);
    assert(h@ =~= buffer_header(p@));
    h
}

/// Build a 4096-byte print buffer.
pub fn build_print_buffer(p: &PrintBufferParams) -> (buf: [u8; PRINT_BUF_SIZE])
    ensures
        buf@ == print_buffer(p@),
{
    let mut buf: [u8; PRINT_BUF_SIZE] = [0u8; PRINT_BUF_SIZE];
    let header = header_bytes(p);
    let ghost m = p@;
    let mut i: usize = 0;
    while i < 12
        invariant
            i <= 12,
            header@ == buffer_header(m),
            forall|k: int| 0 <= k < 2 ==> #[trigger] buf@[k] == 0u8,
            forall|k: int| 2 <= k < 2 + i ==> #[trigger] buf@[k] == header@[k - 2],
            forall|k: int| 14 <= k < 4096 ==> #[trigger] buf@[k] == 0u8,
        decreases 12 - i,
    {
        buf[2 + i] = header[i];
        i += 1;
    }
    let room: usize = PRINT_BUF_SIZE - PRINT_BUF_HEADER;
    i = 0;
    while i < room && i < p.image_data.len()
        invariant
            room == 4082,
            i <= 4082,
            i <= p.image_data@.len(),
            header@ == buffer_header(m),
            m == p@,
            forall|k: int| 0 <= k < 2 ==> #[trigger] buf@[k] == 0u8,
            forall|k: int| 2 <= k < 14 ==> #[trigger] buf@[k] == header@[k - 2],
            forall|k: int|
                14 <= k < 4096 ==> #[trigger] buf@[k] == if k - 14 < i {
                    m.image[k - 14]
                } else {
                    0u8
                },
        decreases 4082 - i,
    {
        buf[PRINT_BUF_HEADER + i] = p.image_data[i];
        i += 1;
    }
    assert(buf@ =~= unsigned_buffer(m));
    let head_sum: u16 = wire::sum16(header.as_slice(), 0);
    let mut chk: u32 = head_sum as u32;
    proof {
        assert(header@.skip(0) =~= header@);
        wire::lemma_byte_sum_bound(header@);
        assert(m.cols * m.per_line_byte <= 65535 * 255) by (nonlinear_arith)
            requires
                0 <= m.cols <= 65535,
                m.per_line_byte <= 255,
        ;
        assert(0 <= m.cols * m.per_line_byte) by (nonlinear_arith)
            requires
                0 <= m.cols,
        ;
    }
    let data_end: u32 = (p.cols_in_buf as u32) * (p.per_line_byte as u32) + 14;
    let n_strides: u32 = data_end / 256;
    let mut s: u32 = 0;
    while s < n_strides
        invariant
            s <= n_strides,
            n_strides <= 65279,
            buf@ == unsigned_buffer(m),
            chk == wire::byte_sum(buffer_header(m)) + stride_sum(buf@, s as int),
            wire::byte_sum(buffer_header(m)) <= 255 * 12,
        decreases n_strides - s,
    {
        s += 1;
        let idx: usize = s as usize * CHECKSUM_STRIDE - 1;
        proof {
            lemma_stride_sum_bound(buf@, s - 1);
        }
        if idx < PRINT_BUF_SIZE {
            chk += buf[idx] as u32;
        }
    }
    let chk16: u16 = (chk % 65536) as u16;
    proof {
        wire::lemma_le16_mod(chk as int);
    }
    buf[0] = lo(chk16);
    buf[1] = hi(chk16);
    assert(buf@ =~= print_buffer(m));
    buf
}

/// Raster columns that fit one buffer.
pub open spec fn max_cols(per_line_byte: u8) -> int {
    4074int / (per_line_byte as int)
}

/// Number of buffers that `cols` columns take.
pub open spec fn part_count(per_line_byte: u8, cols: int) -> int {
    wire::pieces(cols, max_cols(per_line_byte))
}

/// Columns in buffer `k`: all that fit, or what is left.
pub open spec fn part_cols(per_line_byte: u8, cols: int, k: int) -> int {
    let left = cols - k * max_cols(per_line_byte);
    if left < max_cols(per_line_byte) {
        left
    } else {
        max_cols(per_line_byte)
    }
}

/// Where the raster of buffer `k` starts in the image.
pub open spec fn part_start(per_line_byte: u8, first_col: int, k: int) -> int {
    (first_col + k * max_cols(per_line_byte)) * per_line_byte
}

/// Raster bytes of buffer `k`, as far as the image reaches.
pub open spec fn part_image(
    image: Seq<u8>,
    per_line_byte: u8,
    first_col: int,
    cols: int,
    k: int,
) -> Seq<u8> {
    let start = part_start(per_line_byte, first_col, k);
    let end = start + part_cols(per_line_byte, cols, k) * per_line_byte;
    image.subrange(
        start,
        if end < image.len() {
            end
        } else {
            image.len() as int
        },
    )
}

/// What the buffers of one page have in common.
#[derive(Debug, Clone, Copy)]
pub struct PageStyle {
    /// Feed before the image.
    pub margin_top: u16,
    /// Feed after the image.
    pub margin_bottom: u16,
    /// Density field.
    pub nodu: u8,
    /// Energy request of every buffer but the last.
    pub energy: Option<u8>,
    /// Energy request of the last buffer.
    pub end_energy: Option<u8>,
    /// Cut mode.
    pub cut: u8,
    /// Material type.
    pub mat: u8,
}

/// Buffer `k` of the page that shows columns `first_col ..` of the image.
pub open spec fn page_part(
    image: Seq<u8>,
    per_line_byte: u8,
    first_col: int,
    cols: int,
    style: PageStyle,
    k: int,
) -> BufferModel {
    let last = k == part_count(per_line_byte, cols) - 1;
    BufferModel {
        image: part_image(image, per_line_byte, first_col, cols, k),
        per_line_byte,
        cols: part_cols(per_line_byte, cols, k),
        page_st: k == 0,
        page_end: last,
        prt_end: last,
        margin_top: style.margin_top as int,
        margin_bottom: style.margin_bottom as int,
        nodu: style.nodu,
        energy: if last {
            style.end_energy
        } else {
            style.energy
        },
        cut: style.cut,
        mat: style.mat,
    }
}

/// All buffers of a page.
pub open spec fn page_parts(
    image: Seq<u8>,
    per_line_byte: u8,
    first_col: int,
    cols: int,
    style: PageStyle,
) -> Seq<BufferModel> {
    Seq::new(
        part_count(per_line_byte, cols) as nat,
        |k: int| page_part(image, per_line_byte, first_col, cols, style, k),
    )
}

/// The raster of every buffer starts within the image.
pub open spec fn image_reaches(len: int, per_line_byte: u8, first_col: int, cols: int) -> bool {
    cols > 0 ==> part_start(per_line_byte, first_col, part_count(per_line_byte, cols) - 1) <= len
}

/// `bufs` are the print buffers of these models.
pub open spec fn are_buffers(bufs: Seq<[u8; PRINT_BUF_SIZE]>, models: Seq<BufferModel>) -> bool {
    &&& bufs.len() == models.len()
    &&& forall|k: int| 0 <= k < bufs.len() ==> (#[trigger] bufs[k])@ == print_buffer(models[k])
}

/// The bytes of some buffers, one behind the other.
pub open spec fn page_bytes(models: Seq<BufferModel>) -> Seq<u8>
    decreases models.len(),
{
    if models.len() == 0 {
        Seq::empty()
    } else {
        page_bytes(models.drop_last()) + print_buffer(models.last())
    }
}

/// The page style of the T50: the density is both the density field and (cut to
/// its range) the energy.
pub open spec fn t50_style(margin_top: u16, margin_bottom: u16, density: u8, mat: u8) -> PageStyle {
    PageStyle {
        margin_top,
        margin_bottom,
        nodu: density,
        energy: None,
        end_energy: None,
        cut: 0,
        mat,
    }
}

/// The page style of the E-series: independent density and energy, no energy on
/// the last buffer.
pub open spec fn eseries_style(opts: ESeriesBufOpts) -> PageStyle {
    PageStyle {
        margin_top: opts.margin_top,
        margin_bottom: opts.margin_bottom,
        nodu: opts.nodu,
        energy: Some(opts.energy),
        end_energy: Some(0u8),
        cut: opts.cut,
        mat: opts.mat,
    }
}

/// A buffer takes at least 15 columns, and its columns fit the data area.
proof fn lemma_max_cols(per_line_byte: u8)
    requires
        per_line_byte > 0,
    ensures
        15 <= max_cols(per_line_byte) <= 4074,
        max_cols(per_line_byte) * per_line_byte <= 4074,
{
    let b = per_line_byte as int;
    let mc = max_cols(per_line_byte);
    assert(15 <= mc <= 4074 && mc * b <= 4074) by (nonlinear_arith)
        requires
            mc == 4074int / b,
            0 < b <= 255,
    ;
}

/// Facts about the `k`-th part of a split.
proof fn lemma_part(per_line_byte: u8, first_col: int, cols: int, k: int)
    requires
        per_line_byte > 0,
        0 <= first_col,
        0 <= cols <= 65535,
        0 <= k,
        k * max_cols(per_line_byte) < cols,
    ensures
        15 <= max_cols(per_line_byte),
        max_cols(per_line_byte) * per_line_byte <= 4074,
        0 <= k * max_cols(per_line_byte),
        (k + 1) * max_cols(per_line_byte) == k * max_cols(per_line_byte) + max_cols(per_line_byte),
        k < part_count(per_line_byte, cols),
        (k == part_count(per_line_byte, cols) - 1) <==> (cols - k * max_cols(per_line_byte)
            <= max_cols(per_line_byte)),
        part_start(per_line_byte, first_col, k) <= part_start(
            per_line_byte,
            first_col,
            part_count(per_line_byte, cols) - 1,
        ),
        0 <= part_start(per_line_byte, first_col, k),
        0 < part_cols(per_line_byte, cols, k) <= max_cols(per_line_byte),
        0 <= part_cols(per_line_byte, cols, k) * per_line_byte <= 4074,
{
    let b = per_line_byte as int;
    let mc = max_cols(per_line_byte);
    let n = part_count(per_line_byte, cols);
    lemma_max_cols(per_line_byte);
    assert(0 <= k * mc && (k + 1) * mc == k * mc + mc) by (nonlinear_arith)
        requires
            0 <= k,
            0 < mc,
    ;
    wire::lemma_pieces(cols, mc, k);
    wire::lemma_pieces(cols, mc, k + 1);
    let c = part_cols(per_line_byte, cols, k);
    assert(0 <= c * b <= mc * b) by (nonlinear_arith)
        requires
            0 < c <= mc,
            0 < b,
    ;
    assert(0 <= (first_col + k * mc) * b <= (first_col + (n - 1) * mc) * b) by (nonlinear_arith)
        requires
            0 <= first_col,
            0 <= k * mc,
            k <= n - 1,
            0 < mc,
            0 < b,
    ;
}

/// Whether the raster of every buffer starts within an image of `len` bytes.
pub fn reaches_image(len: usize, per_line_byte: u8, first_col: u16, cols: u16) -> (b: bool)
    requires
        per_line_byte > 0,
    ensures
        b == image_reaches(len as int, per_line_byte, first_col as int, cols as int),
{
    if cols == 0 {
        return true;
    }
    let max: usize = MAX_BUF_DATA / per_line_byte as usize;
    proof {
        lemma_max_cols(per_line_byte);
        wire::lemma_pieces(cols as int, max as int, 0);
    }
    let last: usize = wire::piece_count(cols as usize, max) - 1;
    proof {
        wire::lemma_pieces(cols as int, max as int, last as int);
        assert(0 <= last * max) by (nonlinear_arith);
        assert(0 <= (first_col + last * max) * per_line_byte <= 131070 * 255) by (nonlinear_arith)
            requires
                0 <= first_col + last * max <= 131070,
                per_line_byte <= 255,
        ;
    }
    (first_col as usize + last * max) * per_line_byte as usize <= len
}

/// The buffers of a page are just enough for its columns.
pub proof fn lemma_part_count(per_line_byte: u8, cols: int)
    requires
        per_line_byte > 0,
        0 <= cols,
    ensures
        ({
            let fit = 4074int / (per_line_byte as int);
            let n = part_count(per_line_byte, cols);
            0 <= n && (n - 1) * fit < cols <= n * fit || cols == 0
        }),
{
    let fit = 4074int / (per_line_byte as int);
    let n = part_count(per_line_byte, cols);
    lemma_max_cols(per_line_byte);
    wire::law_pieces_are_just_enough(cols, fit);
    wire::lemma_pieces(cols, fit, 0);
    assert((n - 1) * fit == n * fit - fit) by (nonlinear_arith);
}

/// An image that holds all the columns reaches every buffer.
pub proof fn lemma_image_reaches(len: int, per_line_byte: u8, first_col: int, cols: int)
    requires
        per_line_byte > 0,
        0 <= first_col,
        0 <= cols <= 65535,
        (first_col + cols) * per_line_byte <= len,
    ensures
        image_reaches(len, per_line_byte, first_col, cols),
{
    if cols > 0 {
        let b = per_line_byte as int;
        let mc = max_cols(per_line_byte);
        let n = part_count(per_line_byte, cols);
        lemma_max_cols(per_line_byte);
        wire::lemma_pieces(cols, mc, 0);
        wire::lemma_pieces(cols, mc, n - 1);
        assert((first_col + (n - 1) * mc) * b <= (first_col + cols) * b) by (nonlinear_arith)
            requires
                (n - 1) * mc <= cols,
                0 < b,
        ;
    }
}

/// Split the columns `first_col .. first_col + cols` of a column-major image into
/// the buffers of one page.
fn split_columns(
    image_data: &[u8],
    per_line_byte: u8,
    first_col: u16,
    cols: u16,
    style: PageStyle,
) -> (bufs: Vec<[u8; PRINT_BUF_SIZE]>)
    requires
        per_line_byte > 0,
        first_col + cols <= 65535,
        image_reaches(image_data@.len() as int, per_line_byte, first_col as int, cols as int),
    ensures
        are_buffers(
            bufs@,
            page_parts(image_data@, per_line_byte, first_col as int, cols as int, style),
        ),
{
    let max: u16 = (MAX_BUF_DATA / per_line_byte as usize) as u16;
    let mut buffers: Vec<[u8; PRINT_BUF_SIZE]> = Vec::new();
    let mut remaining: u16 = cols;
    let mut current: u16 = 0;
    let ghost models = page_parts(
        image_data@,
        per_line_byte,
        first_col as int,
        cols as int,
        style,
    );
    let ghost mut k: int = 0;
    proof {
        lemma_max_cols(per_line_byte);
        wire::lemma_pieces(cols as int, max as int, 0);
    }
    while remaining > 0
        invariant
            per_line_byte > 0,
            max == max_cols(per_line_byte),
            max > 0,
            first_col + cols <= 65535,
            image_reaches(image_data@.len() as int, per_line_byte, first_col as int, cols as int),
            models == page_parts(
                image_data@,
                per_line_byte,
                first_col as int,
                cols as int,
                style,
            ),
            0 <= k <= part_count(per_line_byte, cols as int),
            current == if k < part_count(per_line_byte, cols as int) {
                k * max
            } else {
                cols as int
            },
            remaining == cols - current,
            remaining > 0 <==> k < part_count(per_line_byte, cols as int),
            buffers@.len() == k,
            forall|j: int| 0 <= j < k ==> (#[trigger] buffers@[j])@ == print_buffer(models[j]),
        decreases remaining,
    {
        proof {
            lemma_part(per_line_byte, first_col as int, cols as int, k);
            wire::lemma_pieces(cols as int, max as int, k + 1);
            let b = per_line_byte as int;
            let r = part_cols(per_line_byte, cols as int, k);
            assert((first_col + current) * b == part_start(
                per_line_byte,
                first_col as int,
                k,
            ));
            assert(0 <= (first_col + current) * b <= 65535 * 255) by (nonlinear_arith)
                requires
                    0 <= first_col + current <= 65535,
                    0 < b <= 255,
            ;
        }
        let in_buf: u16 = if remaining < max {
            remaining
        } else {
            max
        };
        let is_first: bool = current == 0;
        let is_last: bool = remaining <= max;
        let start: usize = (first_col + current) as usize * per_line_byte as usize;
        let full_end: usize = start + in_buf as usize * per_line_byte as usize;
        let end: usize = if full_end < image_data.len() {
            full_end
        } else {
            image_data.len()
        };
        let chunk = vstd::slice::slice_subrange(image_data, start, end);
        let params = PrintBufferParams {
            image_data: chunk,
            per_line_byte,
            cols_in_buf: in_buf,
            page_st: is_first,
            page_end: is_last,
            prt_end: is_last,
            margin_top: style.margin_top,
            margin_bottom: style.margin_bottom,
            nodu: style.nodu,
            energy: if is_last {
                style.end_energy
            } else {
                style.energy
            },
            cut: style.cut,
            mat: style.mat,
        };
        assert(is_first <==> k == 0) by {
            assert(k > 0 ==> k * max > 0) by (nonlinear_arith)
                requires
                    max > 0,
            ;
        }
        assert(params@ == models[k]);
        buffers.push(build_print_buffer(&params));
        current = current + in_buf;
        remaining = remaining - in_buf;
        proof {
            k = k + 1;
        }
    }
    buffers
}

/// Split column-major image data into the print buffers of one T50 page. The
/// margins are carved out of the raster.
pub fn split_into_buffers(
    image_data: &[u8],
    per_line_byte: u8,
    total_cols: u16,
    margin_top: u16,
    margin_bottom: u16,
    density: u8,
    mat: u8,
) -> (bufs: Vec<[u8; PRINT_BUF_SIZE]>)
    requires
        per_line_byte > 0,
        margin_top + margin_bottom <= total_cols,
        image_reaches(
            image_data@.len() as int,
            per_line_byte,
            margin_top as int,
            total_cols - margin_top - margin_bottom,
        ),
    ensures
        are_buffers(
            bufs@,
            page_parts(
                image_data@,
                per_line_byte,
                margin_top as int,
                total_cols - margin_top - margin_bottom,
                t50_style(margin_top, margin_bottom, density, mat),
            ),
        ),
{
    split_columns(
        image_data,
        per_line_byte,
        margin_top,
        total_cols - margin_top - margin_bottom,
        PageStyle {
            margin_top,
            margin_bottom,
            nodu: density,
            energy: None,
            end_energy: None,
            cut: 0,
            mat,
        },
    )
}

/// Header knobs of an E-series page.
#[derive(Debug, Clone, Copy)]
pub struct ESeriesBufOpts {
    /// Density field of the page-register bits.
    pub nodu: u8,
    /// Burn energy of every buffer but the last.
    pub energy: u8,
    /// Cut mode of the image buffers.
    pub cut: u8,
    /// Material type.
    pub mat: u8,
    /// Feed before the image.
    pub margin_top: u16,
    /// Feed after the image.
    pub margin_bottom: u16,
}

/// The knob settings of a plain E-series page.
pub open spec fn default_eseries_opts() -> ESeriesBufOpts {
    ESeriesBufOpts { nodu: 4, energy: 23, cut: 1, mat: 0, margin_top: 1, margin_bottom: 1 }
}

impl Default for ESeriesBufOpts {
    fn default() -> (opts: Self)
        ensures
            opts == default_eseries_opts(),
    {
        ESeriesBufOpts { nodu: 4, energy: 23, cut: 1, mat: 0, margin_top: 1, margin_bottom: 1 }
    }
}

/// Split column-major image data into the print buffers of one E-series page.
/// All `total_cols` columns are image; the margins stand in the header only.
pub fn split_into_buffers_e(
    image_data: &[u8],
    per_line_byte: u8,
    total_cols: u16,
    opts: ESeriesBufOpts,
) -> (bufs: Vec<[u8; PRINT_BUF_SIZE]>)
    requires
        per_line_byte > 0,
        image_reaches(image_data@.len() as int, per_line_byte, 0, total_cols as int),
    ensures
        are_buffers(
            bufs@,
            page_parts(image_data@, per_line_byte, 0, total_cols as int, eseries_style(opts)),
        ),
{
    split_columns(
        image_data,
        per_line_byte,
        0,
        total_cols,
        PageStyle {
            margin_top: opts.margin_top,
            margin_bottom: opts.margin_bottom,
            nodu: opts.nodu,
            energy: Some(opts.energy),
            end_energy: Some(0),
            cut: opts.cut,
            mat: opts.mat,
        },
    )
}

/// The page-register bits can be read back: every field stands in its own bit
/// range, whatever the others hold.
pub proof fn law_page_reg_bits_read_back(p: PageRegBits)
    ensures
        ({
            let b0 = page_reg_bits(p)[0] as int;
            let b1 = page_reg_bits(p)[1] as int;
            &&& b0 % 2 == 0
            &&& b0 / 2 % 2 == flag(p.page_st)
            &&& b0 / 4 % 2 == flag(p.page_end)
            &&& b0 / 8 % 2 == flag(p.prt_end)
            &&& b0 / 16 % 8 == p.cut % 8
            &&& b0 / 128 == flag(p.savepaper)
            &&& b1 % 4 == p.first_cut % 4
            &&& b1 / 4 % 16 == p.nodu % 16
            &&& b1 / 64 == p.mat % 4
        }),
{
}

/// A print buffer can be read back: its length, each header field at its offset,
/// and the raster behind the header.
pub proof fn law_print_buffer_reads_back(m: BufferModel)
    requires
        0 <= m.cols <= 65535,
    ensures
        ({
            let b = print_buffer(m);
            &&& b.len() == 4096
            &&& wire::le16_value(b[0], b[1]) == buffer_checksum(m) % 65536
            &&& wire::le16_value(b[4], b[5]) == m.cols
            &&& b[6] == m.per_line_byte
            &&& b[7] == 0
            &&& wire::le16_value(b[8], b[9]) == header_margin(m.margin_top)
            &&& wire::le16_value(b[10], b[11]) == header_margin(m.margin_bottom)
            &&& 1 <= wire::le16_value(b[8], b[9]) <= MARGIN_MAX_DOTS
            &&& 1 <= wire::le16_value(b[10], b[11]) <= MARGIN_MAX_DOTS
            &&& b[12] == energy_byte(m.energy, m.nodu)
            &&& b[13] == 0
            &&& b.skip(14) == wire::padded(m.image, 4082)
        }),
{
    let b = print_buffer(m);
    assert(b.skip(14) =~= wire::padded(m.image, 4082));
    wire::lemma_le16_value(buffer_checksum(m) as int);
    wire::lemma_le16_value(m.cols);
    wire::lemma_le16_value(header_margin(m.margin_top));
    wire::lemma_le16_value(header_margin(m.margin_bottom));
}

/// The density field and the energy byte are independent once an energy is asked
/// for; without one, the energy mirrors the density and never exceeds 15.
pub proof fn law_energy_is_independent_of_density(m: BufferModel)
    requires
        0 <= m.cols <= 65535,
    ensures
        print_buffer(m)[3] / 4 % 16 == m.nodu % 16,
        m.energy matches Some(e) ==> print_buffer(m)[12] == e,
        m.energy is None ==> print_buffer(m)[12] <= MAX_DENSITY,
        m.energy is None && m.nodu <= MAX_DENSITY ==> print_buffer(m)[12] == m.nodu,
{
    law_print_buffer_reads_back(m);
    let bits = PageRegBits {
        page_st: m.page_st,
        page_end: m.page_end,
        prt_end: m.prt_end,
        cut: m.cut,
        savepaper: false,
        first_cut: 0,
        nodu: m.nodu,
        mat: m.mat,
    };
    law_page_reg_bits_read_back(bits);
    assert(print_buffer(m)[3] == page_reg_bits(bits)[1]);
}

/// The buffers of a page show every column of the raster once and in order:
/// column `c` is column `c % max` of buffer `c / max`. Each buffer fits its data
/// area, only the first carries the page start, only the last the page and print
/// end.
pub proof fn law_page_parts_cover_raster(
    image: Seq<u8>,
    per_line_byte: u8,
    first_col: int,
    cols: int,
    style: PageStyle,
)
    requires
        per_line_byte > 0,
        0 <= first_col,
        0 <= cols <= 65535,
        (first_col + cols) * per_line_byte <= image.len(),
    ensures
        ({
            let parts = page_parts(image, per_line_byte, first_col, cols, style);
            let mc = max_cols(per_line_byte);
            &&& (parts.len() == 0 <==> cols == 0)
            &&& forall|k: int|
                0 <= k < parts.len() ==> {
                    &&& 0 < (#[trigger] parts[k]).cols <= mc
                    &&& parts[k].image.len() == parts[k].cols * per_line_byte <= MAX_BUF_DATA
                    &&& (parts[k].page_st <==> k == 0)
                    &&& (parts[k].page_end <==> k == parts.len() - 1)
                    &&& (parts[k].prt_end <==> k == parts.len() - 1)
                }
            &&& forall|c: int|
                0 <= c < cols ==> {
                    &&& 0 <= #[trigger] (c / mc) < parts.len()
                    &&& 0 <= c % mc < parts[c / mc].cols
                }
            &&& forall|c: int, j: int|
                #![trigger image[(first_col + c) * per_line_byte + j]]
                0 <= c < cols && 0 <= j < per_line_byte ==> parts[c / mc].image[(c % mc)
                    * per_line_byte + j] == image[(first_col + c) * per_line_byte + j]
        }),
{
    let parts = page_parts(image, per_line_byte, first_col, cols, style);
    let mc = max_cols(per_line_byte);
    let b = per_line_byte as int;
    lemma_max_cols(per_line_byte);
    wire::lemma_pieces(cols, mc, 0);
    assert forall|k: int| 0 <= k < parts.len() implies {
        &&& 0 < (#[trigger] parts[k]).cols <= mc
        &&& parts[k].image.len() == parts[k].cols * per_line_byte <= MAX_BUF_DATA
        &&& (parts[k].page_st <==> k == 0)
        &&& (parts[k].page_end <==> k == parts.len() - 1)
        &&& (parts[k].prt_end <==> k == parts.len() - 1)
    } by {
        lemma_part_whole(image, per_line_byte, first_col, cols, k);
    }
    assert forall|c: int| 0 <= c < cols implies {
        &&& 0 <= #[trigger] (c / mc) < parts.len()
        &&& 0 <= c % mc < parts[c / mc].cols
    } by {
        lemma_column_place(per_line_byte, cols, c);
    }
    assert forall|c: int, j: int|
        #![trigger image[(first_col + c) * per_line_byte + j]]
        0 <= c < cols && 0 <= j < per_line_byte implies parts[c / mc].image[(c % mc) * per_line_byte
        + j] == image[(first_col + c) * per_line_byte + j] by {
        let k = c / mc;
        let r = c % mc;
        lemma_column_place(per_line_byte, cols, c);
        lemma_part_whole(image, per_line_byte, first_col, cols, k);
        assert((first_col + k * mc) * b + (r * b + j) == (first_col + c) * b + j)
            by (nonlinear_arith)
            requires
                c == k * mc + r,
        ;
        assert(0 <= r * b + j < parts[k].cols * b) by (nonlinear_arith)
            requires
                0 <= r < parts[k].cols,
                0 <= j < b,
        ;
    }
}

proof fn lemma_column_place(per_line_byte: u8, cols: int, c: int)
    requires
        per_line_byte > 0,
        0 <= c < cols <= 65535,
    ensures
        0 <= c / max_cols(per_line_byte) < part_count(per_line_byte, cols),
        0 <= c % max_cols(per_line_byte) < part_cols(
            per_line_byte,
            cols,
            c / max_cols(per_line_byte),
        ),
        c == c / max_cols(per_line_byte) * max_cols(per_line_byte) + c % max_cols(per_line_byte),
{
    let mc = max_cols(per_line_byte);
    lemma_max_cols(per_line_byte);
    let k = c / mc;
    let r = c % mc;
    assert(c == k * mc + r && 0 <= r < mc && 0 <= k) by (nonlinear_arith)
        requires
            k == c / mc,
            r == c % mc,
            0 < mc,
            0 <= c,
    ;
    wire::lemma_pieces(cols, mc, k);
}

proof fn lemma_part_whole(image: Seq<u8>, per_line_byte: u8, first_col: int, cols: int, k: int)
    requires
        per_line_byte > 0,
        0 <= first_col,
        0 <= cols <= 65535,
        (first_col + cols) * per_line_byte <= image.len(),
        0 <= k < part_count(per_line_byte, cols),
    ensures
        0 < part_cols(per_line_byte, cols, k) <= max_cols(per_line_byte),
        part_cols(per_line_byte, cols, k) * per_line_byte <= 4074,
        0 <= part_start(per_line_byte, first_col, k),
        part_start(per_line_byte, first_col, k) + part_cols(per_line_byte, cols, k) * per_line_byte
            <= image.len(),
        part_image(image, per_line_byte, first_col, cols, k).len() == part_cols(
            per_line_byte,
            cols,
            k,
        ) * per_line_byte,
{
    let mc = max_cols(per_line_byte);
    let b = per_line_byte as int;
    let n = part_cols(per_line_byte, cols, k);
    lemma_max_cols(per_line_byte);
    wire::lemma_pieces(cols, mc, k);
    lemma_part(per_line_byte, first_col, cols, k);
    assert((first_col + k * mc) * b + n * b <= (first_col + cols) * b) by (nonlinear_arith)
        requires
            k * mc + n <= cols,
            0 < b,
    ;
}

/// On an E-series page the last buffer carries no energy and every other buffer
/// carries the energy asked for.
pub proof fn law_eseries_energy_ends_with_page(
    image: Seq<u8>,
    per_line_byte: u8,
    cols: int,
    opts: ESeriesBufOpts,
    k: int,
)
    requires
        per_line_byte > 0,
        0 <= cols <= 65535,
        0 <= k < part_count(per_line_byte, cols),
    ensures
        ({
            let parts = page_parts(image, per_line_byte, 0, cols, eseries_style(opts));
            print_buffer(parts[k])[12] == if k == parts.len() - 1 {
                0u8
            } else {
                opts.energy
            }
        }),
{
    lemma_max_cols(per_line_byte);
    wire::lemma_pieces(cols, max_cols(per_line_byte), k);
    lemma_part(per_line_byte, 0, cols, k);
    law_print_buffer_reads_back(page_part(image, per_line_byte, 0, cols, eseries_style(opts), k));
}

/// Both ways to split a page agree. Without margins they make as many buffers, with
/// the same columns and the same raster; and where the E-series knobs are set to what
/// the T50 uses (its density and material, no cut, least margins), the buffers differ
/// in the checksum and the energy byte alone.
pub proof fn law_splitters_agree_without_margins(
    image: Seq<u8>,
    per_line_byte: u8,
    cols: int,
    density: u8,
    mat: u8,
    opts: ESeriesBufOpts,
)
    requires
        per_line_byte > 0,
        0 <= cols <= 65535,
    ensures
        ({
            let t50 = page_parts(image, per_line_byte, 0, cols, t50_style(0, 0, density, mat));
            let eseries = page_parts(image, per_line_byte, 0, cols, eseries_style(opts));
            &&& t50.len() == eseries.len()
            &&& forall|k: int, i: int|
                0 <= k < t50.len() && (4 <= i < 8 || 14 <= i < 4096)
                    ==> #[trigger] print_buffer(t50[k])[i] == print_buffer(eseries[k])[i]
            &&& opts.nodu == density && opts.mat == mat && opts.cut == 0 && opts.margin_top <= 1
                && opts.margin_bottom <= 1 ==> forall|k: int, i: int|
                0 <= k < t50.len() && 2 <= i < 4096 && i != 12 ==> #[trigger] print_buffer(
                    t50[k],
                )[i] == print_buffer(eseries[k])[i]
        }),
{
    let t50 = page_parts(image, per_line_byte, 0, cols, t50_style(0, 0, density, mat));
    let eseries = page_parts(image, per_line_byte, 0, cols, eseries_style(opts));
    assert forall|k: int, i: int|
        0 <= k < t50.len() && (4 <= i < 8 || 14 <= i < 4096) implies #[trigger] print_buffer(
        t50[k],
    )[i] == print_buffer(eseries[k])[i] by {
        lemma_header_place(t50[k], i);
        lemma_header_place(eseries[k], i);
    }
    if opts.nodu == density && opts.mat == mat && opts.cut == 0 && opts.margin_top <= 1
        && opts.margin_bottom <= 1 {
        assert forall|k: int, i: int|
            0 <= k < t50.len() && 2 <= i < 4096 && i != 12 implies #[trigger] print_buffer(
            t50[k],
        )[i] == print_buffer(eseries[k])[i] by {
            lemma_header_place(t50[k], i);
            lemma_header_place(eseries[k], i);
        }
    }
}

/// Behind the checksum, a buffer is its header and its raster.
proof fn lemma_header_place(m: BufferModel, i: int)
    requires
        2 <= i < 4096,
    ensures
        print_buffer(m)[i] == if i < 14 {
            buffer_header(m)[i - 2]
        } else {
            wire::padded(m.image, 4082)[i - 14]
        },
        buffer_header(m)[2] == wire::le16(m.cols)[0],
        buffer_header(m)[3] == wire::le16(m.cols)[1],
        buffer_header(m)[4] == m.per_line_byte,
        buffer_header(m)[5] == 0,
{
}

/// What the `i`-th run of 256 bytes adds to the checksum of a buffer: its last byte, if
/// the run lies within the first `end` bytes.
pub open spec fn sample(b: Seq<u8>, end: int, i: int) -> int {
    if 256 * i <= end {
        b[256 * i - 1] as int
    } else {
        0
    }
}

/// What the 16 runs of 256 bytes add to the checksum of a buffer.
pub open spec fn sampled(b: Seq<u8>, end: int) -> int {
    sample(b, end, 1) + sample(b, end, 2) + sample(b, end, 3) + sample(b, end, 4) + sample(
        b,
        end,
        5,
    ) + sample(b, end, 6) + sample(b, end, 7) + sample(b, end, 8) + sample(b, end, 9) + sample(
        b,
        end,
        10,
    ) + sample(b, end, 11) + sample(b, end, 12) + sample(b, end, 13) + sample(b, end, 14) + sample(
        b,
        end,
        15,
    ) + sample(b, end, 16)
}

/// What the first `j` runs add.
spec fn first_samples(b: Seq<u8>, end: int, j: int) -> int
    decreases j,
{
    if j <= 0 {
        0
    } else {
        first_samples(b, end, j - 1) + sample(b, end, j)
    }
}

proof fn lemma_sixteen_samples(b: Seq<u8>, end: int)
    ensures
        first_samples(b, end, 16) == sampled(b, end),
{
    reveal_with_fuel(first_samples, 17);
}

proof fn lemma_strides_are_samples(b: Seq<u8>, end: int, j: int)
    requires
        b.len() == 4096,
        0 <= end,
        0 <= j <= 16,
    ensures
        first_samples(b, end, j) == stride_sum(
            b,
            if j < end / 256 {
                j
            } else {
                end / 256
            },
        ),
    decreases j,
{
    if j > 0 {
        lemma_strides_are_samples(b, end, j - 1);
    }
}

proof fn lemma_stride_sum_is_sampled(b: Seq<u8>, end: int)
    requires
        b.len() == 4096,
        0 <= end,
    ensures
        stride_sum(b, end / 256) == sampled(b, end),
{
    lemma_sixteen_samples(b, end);
    lemma_strides_are_samples(b, end, 16);
    if end / 256 > 16 {
        lemma_stride_sum_tail(b, end / 256);
    }
}

/// Two buffers that differ in one byte differ in the samples by what that byte does.
proof fn lemma_samples_differ(b: Seq<u8>, c: Seq<u8>, end: int, p: int, j: int)
    requires
        b.len() == 4096,
        c.len() == 4096,
        14 <= p < 4096,
        forall|i: int| 14 <= i < 4096 && i != p ==> #[trigger] c[i] == b[i],
        0 <= j <= 16,
    ensures
        first_samples(c, end, j) == first_samples(b, end, j) + if (p + 1) % 256 == 0 && p + 1 <= end
            && p + 1 <= 256 * j {
            c[p] - b[p]
        } else {
            0
        },
    decreases j,
{
    if j > 0 {
        lemma_samples_differ(b, c, end, p, j - 1);
        if 256 * j - 1 != p {
            assert(c[256 * j - 1] == b[256 * j - 1]);
        }
    }
}

/// The checksum of a print buffer is, modulo 2^16, the sum of its twelve header bytes
/// and of the last byte of every run of 256 bytes that lies within header and declared
/// raster.
pub proof fn law_checksum_covers_header_and_samples(m: BufferModel)
    requires
        0 <= m.cols,
    ensures
        ({
            let b = print_buffer(m);
            b[0] + 256 * b[1] == (b[2] + b[3] + b[4] + b[5] + b[6] + b[7] + b[8] + b[9] + b[10]
                + b[11] + b[12] + b[13] + sampled(b, 14 + m.cols * m.per_line_byte)) % 65536
        }),
{
    let b = print_buffer(m);
    let u = unsigned_buffer(m);
    let h = buffer_header(m);
    let end = 14 + m.cols * m.per_line_byte;
    assert(0 <= m.cols * m.per_line_byte) by (nonlinear_arith)
        requires
            0 <= m.cols,
            0 <= m.per_line_byte,
    ;
    lemma_stride_sum_is_sampled(u, end);
    assert forall|i: int| 2 <= i < 4096 implies #[trigger] b[i] == u[i] by {}
    assert(sampled(u, end) == sampled(b, end));
    lemma_sum_of_twelve(h);
    assert(b.len() == 4096 && h.len() == 12);
    assert forall|i: int| 0 <= i < 12 implies #[trigger] h[i] == b[i + 2] by {}
    assert(h[0] == b[2] && h[1] == b[3] && h[2] == b[4] && h[3] == b[5] && h[4] == b[6] && h[5]
        == b[7] && h[6] == b[8] && h[7] == b[9] && h[8] == b[10] && h[9] == b[11] && h[10] == b[12]
        && h[11] == b[13]);
    wire::lemma_le16_value(buffer_checksum(m) as int);
}

proof fn lemma_sum_of_twelve(h: Seq<u8>)
    requires
        h.len() == 12,
    ensures
        wire::byte_sum(h) == h[0] + h[1] + h[2] + h[3] + h[4] + h[5] + h[6] + h[7] + h[8] + h[9]
            + h[10] + h[11],
{
    reveal_with_fuel(wire::byte_sum, 13);
}

/// Changing one raster byte changes the checksum by the difference if the byte is
/// sampled, and else not at all.
pub proof fn law_checksum_follows_sampled_bytes(m: BufferModel, pos: int, v: u8)
    requires
        0 <= m.cols,
        0 <= pos < m.image.len(),
        pos < 4082,
    ensures
        ({
            let b = print_buffer(m);
            let c = print_buffer(BufferModel { image: m.image.update(pos, v), ..m });
            let field = |p: Seq<u8>| p[0] + 256 * p[1];
            field(c) == if (pos + 15) % 256 == 0 && pos + 15 <= 14 + m.cols * m.per_line_byte {
                (field(b) + v - m.image[pos]) % 65536
            } else {
                field(b)
            }
        }),
{
    let n = BufferModel { image: m.image.update(pos, v), ..m };
    let b = print_buffer(m);
    let c = print_buffer(n);
    let end = 14 + m.cols * m.per_line_byte;
    law_checksum_covers_header_and_samples(m);
    law_checksum_covers_header_and_samples(n);
    lemma_one_byte_changed(m, pos, v);
    lemma_samples_differ(b, c, end, pos + 14, 16);
    lemma_sixteen_samples(b, end);
    lemma_sixteen_samples(c, end);
    lemma_sum_wraps(b, sampled(b, end), c, sampled(c, end));
}

/// A raster byte is one byte of the buffer.
proof fn lemma_one_byte_changed(m: BufferModel, pos: int, v: u8)
    requires
        0 <= pos < m.image.len(),
        pos < 4082,
    ensures
        ({
            let b = print_buffer(m);
            let c = print_buffer(BufferModel { image: m.image.update(pos, v), ..m });
            &&& b.len() == 4096 && c.len() == 4096
            &&& forall|i: int| 2 <= i < 4096 && i != pos + 14 ==> #[trigger] c[i] == b[i]
            &&& c[pos + 14] == v
            &&& b[pos + 14] == m.image[pos]
        }),
{
    let n = BufferModel { image: m.image.update(pos, v), ..m };
    assert(buffer_header(n) == buffer_header(m));
    assert forall|i: int| 2 <= i < 4096 && i != pos + 14 implies #[trigger] print_buffer(n)[i]
        == print_buffer(m)[i] by {
        lemma_header_place(m, i);
        lemma_header_place(n, i);
    }
    lemma_header_place(m, pos + 14);
    lemma_header_place(n, pos + 14);
}

/// Two checksum fields over the same header differ as the samples do.
proof fn lemma_sum_wraps(b: Seq<u8>, x: int, c: Seq<u8>, y: int)
    requires
        b.len() == 4096,
        c.len() == 4096,
        forall|i: int| 2 <= i < 14 ==> #[trigger] c[i] == b[i],
        b[0] + 256 * b[1] == (b[2] + b[3] + b[4] + b[5] + b[6] + b[7] + b[8] + b[9] + b[10] + b[11]
            + b[12] + b[13] + x) % 65536,
        c[0] + 256 * c[1] == (c[2] + c[3] + c[4] + c[5] + c[6] + c[7] + c[8] + c[9] + c[10] + c[11]
            + c[12] + c[13] + y) % 65536,
    ensures
        c[0] + 256 * c[1] == (b[0] + 256 * b[1] + y - x) % 65536,
{
}

/// How a page is cut: each buffer takes as many columns as fit 4074 bytes, the last
/// one what is left, and column `r` of buffer `k` is column `k` times that number plus
/// `r` of the page.
pub proof fn law_buffers_are_filled_up(
    image: Seq<u8>,
    per_line_byte: u8,
    first_col: int,
    cols: int,
    style: PageStyle,
    k: int,
    r: int,
    j: int,
)
    requires
        per_line_byte > 0,
        0 <= first_col,
        0 <= cols <= 65535,
        (first_col + cols) * per_line_byte <= image.len(),
        0 <= k < page_parts(image, per_line_byte, first_col, cols, style).len(),
    ensures
        ({
            let parts = page_parts(image, per_line_byte, first_col, cols, style);
            let fit = 4074int / (per_line_byte as int);
            &&& (parts.len() - 1) * fit < cols <= parts.len() * fit
            &&& parts[k].per_line_byte == per_line_byte
            &&& parts[k].cols == if k < parts.len() - 1 {
                fit
            } else {
                cols - k * fit
            }
            &&& 0 <= r < parts[k].cols && 0 <= j < per_line_byte ==> parts[k].image[r
                * per_line_byte + j] == image[(first_col + k * fit + r) * per_line_byte + j]
        }),
{
    let parts = page_parts(image, per_line_byte, first_col, cols, style);
    let fit = 4074int / (per_line_byte as int);
    let b = per_line_byte as int;
    lemma_max_cols(per_line_byte);
    wire::law_pieces_are_just_enough(cols, fit);
    wire::lemma_pieces(cols, fit, k);
    wire::lemma_pieces(cols, fit, k + 1);
    lemma_part_whole(image, per_line_byte, first_col, cols, k);
    assert((parts.len() - 1) * fit == parts.len() * fit - fit) by (nonlinear_arith);
    assert((k + 1) * fit == k * fit + fit) by (nonlinear_arith);
    if 0 <= r < parts[k].cols && 0 <= j < per_line_byte {
        assert(0 <= r * b + j < parts[k].cols * b) by (nonlinear_arith)
            requires
                0 <= r < parts[k].cols,
                0 <= j < b,
        ;
        assert((first_col + k * fit) * b + (r * b + j) == (first_col + k * fit + r) * b + j)
            by (nonlinear_arith);
    }
}

/// A margin in the header: itself from 1 to 900, else the nearer end of that range.
pub proof fn law_margins_are_clamped(dots: int)
    ensures
        1 <= header_margin(dots) <= 900,
        1 <= dots <= 900 ==> header_margin(dots) == dots,
        dots <= 1 ==> header_margin(dots) == 1,
        dots >= 900 ==> header_margin(dots) == 900,
{
}

/// What the header of each buffer of a T50 page says: the flags of its place in the
/// page, the density in both places (up to 15 in the second), the material, the
/// margins, and no cut.
pub proof fn law_t50_headers(
    image: Seq<u8>,
    per_line_byte: u8,
    first_col: int,
    cols: int,
    margin_top: u16,
    margin_bottom: u16,
    density: u8,
    mat: u8,
    k: int,
)
    requires
        per_line_byte > 0,
        0 <= first_col,
        0 <= cols <= 65535,
        0 <= k < page_parts(
            image,
            per_line_byte,
            first_col,
            cols,
            t50_style(margin_top, margin_bottom, density, mat),
        ).len(),
    ensures
        ({
            let parts = page_parts(
                image,
                per_line_byte,
                first_col,
                cols,
                t50_style(margin_top, margin_bottom, density, mat),
            );
            let b = print_buffer(parts[k]);
            &&& b[2] == (if k == 0 { 2int } else { 0 }) + (if k == parts.len() - 1 { 12int } else { 0 })
            &&& b[3] == 4 * (density % 16) + 64 * (mat % 4)
            &&& b[6] == per_line_byte && b[7] == 0
            &&& 1 <= margin_top <= 900 ==> b[8] + 256 * b[9] == margin_top
            &&& margin_top == 0 ==> b[8] + 256 * b[9] == 1
            &&& margin_top > 900 ==> b[8] + 256 * b[9] == 900
            &&& 1 <= margin_bottom <= 900 ==> b[10] + 256 * b[11] == margin_bottom
            &&& margin_bottom == 0 ==> b[10] + 256 * b[11] == 1
            &&& margin_bottom > 900 ==> b[10] + 256 * b[11] == 900
            &&& b[12] == if density <= 15 { density } else { 15u8 }
            &&& b[13] == 0
        }),
{
    let style = t50_style(margin_top, margin_bottom, density, mat);
    lemma_max_cols(per_line_byte);
    wire::lemma_pieces(cols, max_cols(per_line_byte), k);
    lemma_part(per_line_byte, first_col, cols, k);
    law_print_buffer_reads_back(page_part(image, per_line_byte, first_col, cols, style, k));
}

/// What the header of each buffer of an E-series page says: the flags of its place in
/// the page, each knob as it was asked for, and the energy on all buffers but the last.
pub proof fn law_eseries_headers(
    image: Seq<u8>,
    per_line_byte: u8,
    cols: int,
    opts: ESeriesBufOpts,
    k: int,
)
    requires
        per_line_byte > 0,
        0 <= cols <= 65535,
        0 <= k < page_parts(image, per_line_byte, 0, cols, eseries_style(opts)).len(),
    ensures
        ({
            let parts = page_parts(image, per_line_byte, 0, cols, eseries_style(opts));
            let b = print_buffer(parts[k]);
            &&& b[2] == (if k == 0 { 2int } else { 0 }) + (if k == parts.len() - 1 { 12int } else { 0 })
                + 16 * (opts.cut % 8)
            &&& b[3] == 4 * (opts.nodu % 16) + 64 * (opts.mat % 4)
            &&& b[6] == per_line_byte && b[7] == 0
            &&& 1 <= opts.margin_top <= 900 ==> b[8] + 256 * b[9] == opts.margin_top
            &&& opts.margin_top == 0 ==> b[8] + 256 * b[9] == 1
            &&& opts.margin_top > 900 ==> b[8] + 256 * b[9] == 900
            &&& 1 <= opts.margin_bottom <= 900 ==> b[10] + 256 * b[11] == opts.margin_bottom
            &&& opts.margin_bottom == 0 ==> b[10] + 256 * b[11] == 1
            &&& opts.margin_bottom > 900 ==> b[10] + 256 * b[11] == 900
            &&& b[12] == if k == parts.len() - 1 { 0u8 } else { opts.energy }
            &&& b[13] == 0
        }),
{
    let m = page_part(image, per_line_byte, 0, cols, eseries_style(opts), k);
    lemma_max_cols(per_line_byte);
    wire::lemma_pieces(cols, max_cols(per_line_byte), k);
    lemma_part(per_line_byte, 0, cols, k);
    law_print_buffer_layout(m, 14);
    lemma_header_margins(m);
    law_margins_are_clamped(opts.margin_top as int);
    law_margins_are_clamped(opts.margin_bottom as int);
}

/// The margin fields of a buffer.
proof fn lemma_header_margins(m: BufferModel)
    requires
        0 <= m.cols <= 65535,
    ensures
        print_buffer(m)[8] + 256 * print_buffer(m)[9] == header_margin(m.margin_top),
        print_buffer(m)[10] + 256 * print_buffer(m)[11] == header_margin(m.margin_bottom),
{
    law_print_buffer_reads_back(m);
}

/// Where each field of any print buffer stands, whatever the others hold.
pub proof fn law_print_buffer_layout(m: BufferModel, i: int)
    requires
        0 <= m.cols <= 65535,
    ensures
        ({
            let b = print_buffer(m);
            &&& b.len() == 4096
            &&& b[2] == (if m.page_st { 2int } else { 0 }) + (if m.page_end { 4int } else { 0 }) + (
            if m.prt_end { 8int } else { 0 }) + 16 * (m.cut % 8)
            &&& b[3] == 4 * (m.nodu % 16) + 64 * (m.mat % 4)
            &&& b[4] + 256 * b[5] == m.cols
            &&& b[6] == m.per_line_byte && b[7] == 0
            &&& m.energy matches Some(e) ==> b[12] == e
            &&& m.energy is None ==> b[12] == if m.nodu <= 15 { m.nodu } else { 15u8 }
            &&& b[13] == 0
            &&& 14 <= i < 4096 ==> b[i] == if i - 14 < m.image.len() { m.image[i - 14] } else { 0u8 }
        }),
{
    law_print_buffer_reads_back(m);
    if 14 <= i < 4096 {
        lemma_header_place(m, i);
    }
}

/// A plain E-series page asks for density 4, energy 23, a cut, continuous tape and the
/// least margins.
pub proof fn law_plain_eseries_page()
    ensures
        ({
            let o = default_eseries_opts();
            &&& o.nodu == 4 && o.energy == 23 && o.cut == 1 && o.mat == 0
            &&& o.margin_top == 1 && o.margin_bottom == 1
        }),
{
}

/// An image reaches every buffer exactly when it reaches the first byte of the last
/// one.
pub proof fn law_image_reaches_the_last_buffer(
    len: int,
    per_line_byte: u8,
    first_col: int,
    cols: int,
)
    requires
        per_line_byte > 0,
        0 <= first_col,
        0 <= cols <= 65535,
        0 <= len,
    ensures
        ({
            let fit = 4074int / (per_line_byte as int);
            image_reaches(len, per_line_byte, first_col, cols) <==> (cols == 0 || (first_col + (cols
                - 1) / fit * fit) * per_line_byte <= len)
        }),
{
    let fit = 4074int / (per_line_byte as int);
    lemma_max_cols(per_line_byte);
    if cols > 0 {
        let p = part_count(per_line_byte, cols);
        assert(p - 1 == (cols - 1) / fit) by (nonlinear_arith)
            requires
                p == (cols + fit - 1) / fit,
                fit > 0,
        ;
    }
}

/// Every data byte of every buffer, of short images too: byte `i` behind the header of
/// buffer `k` is the image's byte that many behind the buffer's first column, as far as
/// the buffer's columns and the image go, and zero beyond.
#[verifier::spinoff_prover]
#[verifier::rlimit(40)]
pub proof fn law_each_byte_of_the_image_has_its_place(
    image: Seq<u8>,
    per_line_byte: u8,
    first_col: int,
    cols: int,
    style: PageStyle,
    k: int,
    i: int,
)
    requires
        per_line_byte > 0,
        0 <= first_col,
        0 <= cols <= 65535,
        image_reaches(image.len() as int, per_line_byte, first_col, cols),
        0 <= k < page_parts(image, per_line_byte, first_col, cols, style).len(),
        0 <= i < 4082,
    ensures
        ({
            let fit = 4074int / (per_line_byte as int);
            let left = cols - k * fit;
            let taken = (if left < fit { left } else { fit }) * per_line_byte;
            let at = (first_col + k * fit) * per_line_byte + i;
            print_buffer(page_parts(image, per_line_byte, first_col, cols, style)[k])[14 + i]
                == if i < taken && at < image.len() {
                image[at]
            } else {
                0u8
            }
        }),
{
    let m = page_parts(image, per_line_byte, first_col, cols, style)[k];
    let fit = max_cols(per_line_byte) as int;
    lemma_max_cols(per_line_byte);
    wire::lemma_pieces(cols, fit, k);
    lemma_part(per_line_byte, first_col, cols, k);
    law_print_buffer_layout(m, 14 + i);
}

} // verus!
