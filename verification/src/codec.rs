use vstd::prelude::*;
use crate::grid::{Image, Ternary};

verus! {

/// Failures of loading a persisted grid.
#[derive(Clone, Copy, Debug, PartialEq, Eq, Structural)]
pub enum CodecError {
    CorruptData,
    TypeMismatch,
}

pub const LBRACE: u8 = 0x7B;

pub const RBRACE: u8 = 0x7D;

pub const LBRACK: u8 = 0x5B;

pub const RBRACK: u8 = 0x5D;

pub const COMMA: u8 = 0x2C;

pub const COLON: u8 = 0x3A;

pub const QUOTE: u8 = 0x22;

pub const ZERO: u8 = 0x30;

/// The quoted field name `"width"`.
pub open spec fn key_width() -> Seq<u8> {
    seq![0x22u8, 0x77, 0x69, 0x64, 0x74, 0x68, 0x22]
}

/// The quoted field name `"height"`.
pub open spec fn key_height() -> Seq<u8> {
    seq![0x22u8, 0x68, 0x65, 0x69, 0x67, 0x68, 0x74, 0x22]
}

/// The quoted field name `"pixels"`.
pub open spec fn key_pixels() -> Seq<u8> {
    seq![0x22u8, 0x70, 0x69, 0x78, 0x65, 0x6C, 0x73, 0x22]
}

/// The literal `true`.
pub open spec fn lit_true() -> Seq<u8> {
    seq![0x74u8, 0x72, 0x75, 0x65]
}

/// The literal `false`.
pub open spec fn lit_false() -> Seq<u8> {
    seq![0x66u8, 0x61, 0x6C, 0x73, 0x65]
}

/// The literal `null`.
pub open spec fn lit_null() -> Seq<u8> {
    seq![0x6Eu8, 0x75, 0x6C, 0x6C]
}

/// The decimal digits of `n`, most significant first, no leading zeros.
pub open spec fn dec(n: int) -> Seq<u8>
    recommends
        n >= 0,
    decreases n,
{
    if n < 10 {
        seq![(ZERO + if n >= 0 { n } else { 0 }) as u8]
    } else {
        dec(n / 10) + seq![(ZERO + n % 10) as u8]
    }
}

/// The textual form of one cell: `true`, `false` or `null`.
pub open spec fn cell_lit(c: Ternary) -> Seq<u8> {
    match c {
        Ternary::True => lit_true(),
        Ternary::False => lit_false(),
        Ternary::Unset => lit_null(),
    }
}

/// The comma-separated encoding of `cells[i..]`.
pub open spec fn enc_cells_from(cells: Seq<Ternary>, i: int) -> Seq<u8>
    decreases cells.len() - i,
{
    if i < 0 || i >= cells.len() {
        Seq::empty()
    } else if i == cells.len() - 1 {
        cell_lit(cells[i])
    } else {
        cell_lit(cells[i]) + seq![COMMA] + enc_cells_from(cells, i + 1)
    }
}

/// The persisted form of a grid: a structured text document with the
/// fields `width`, `height` and `pixels`, the cells row-major.
pub open spec fn enc_grid(w: int, h: int, cells: Seq<Ternary>) -> Seq<u8> {
    seq![LBRACE] + key_width() + seq![COLON] + dec(w) + seq![COMMA] + key_height() + seq![COLON]
        + dec(h) + seq![COMMA] + key_pixels() + seq![COLON, LBRACK] + enc_cells_from(cells, 0)
        + seq![RBRACK, RBRACE]
}

/// Appends the decimal digits of `n`.
fn push_dec(out: &mut Vec<u8>, n: u32)
    ensures
        final(out)@ == old(out)@ + dec(n as int),
    decreases n,
{
    if n < 10 {
        out.push(ZERO + (n as u8));
        assert(out@ =~= old(out)@ + dec(n as int));
    } else {
        push_dec(out, n / 10);
        out.push(ZERO + ((n % 10) as u8));
        assert(out@ =~= old(out)@ + dec(n as int));
    }
}

/// Appends the textual form of one cell.
fn push_cell(out: &mut Vec<u8>, c: Ternary)
    ensures
        final(out)@ == old(out)@ + cell_lit(c),
{
    match c {
        Ternary::True => {
            out.push(0x74);
            out.push(0x72);
            out.push(0x75);
            out.push(0x65);
        },
        Ternary::False => {
            out.push(0x66);
            out.push(0x61);
            out.push(0x6C);
            out.push(0x73);
            out.push(0x65);
        },
        Ternary::Unset => {
            out.push(0x6E);
            out.push(0x75);
            out.push(0x6C);
            out.push(0x6C);
        },
    }
    assert(out@ =~= old(out)@ + cell_lit(c));
}

/// Serializes a grid to its durable byte form: a pure, deterministic
/// function of the grid alone.
pub fn save(img: &Image) -> (out: Vec<u8>)
    requires
        img.wf(),
    ensures
        out@ == enc_grid(img.width as int, img.height as int, img.pixels@),
{
    let ghost cells = img.pixels@;
    let mut out: Vec<u8> = Vec::new();
    out.push(LBRACE);
    out.push(0x22);
    out.push(0x77);
    out.push(0x69);
    out.push(0x64);
    out.push(0x74);
    out.push(0x68);
    out.push(0x22);
    out.push(COLON);
    assert(out@ =~= seq![LBRACE] + key_width() + seq![COLON]);
    push_dec(&mut out, img.width);
    out.push(COMMA);
    out.push(0x22);
    out.push(0x68);
    out.push(0x65);
    out.push(0x69);
    out.push(0x67);
    out.push(0x68);
    out.push(0x74);
    out.push(0x22);
    out.push(COLON);
    assert(out@ =~= seq![LBRACE] + key_width() + seq![COLON] + dec(img.width as int)
        + seq![COMMA] + key_height() + seq![COLON]);
    push_dec(&mut out, img.height);
    out.push(COMMA);
    out.push(0x22);
    out.push(0x70);
    out.push(0x69);
    out.push(0x78);
    out.push(0x65);
    out.push(0x6C);
    out.push(0x73);
    out.push(0x22);
    out.push(COLON);
    out.push(LBRACK);
    let ghost base = out@;
    assert(base =~= seq![LBRACE] + key_width() + seq![COLON] + dec(img.width as int)
        + seq![COMMA] + key_height() + seq![COLON] + dec(img.height as int) + seq![COMMA]
        + key_pixels() + seq![COLON, LBRACK]);
    let n = img.pixels.len();
    let mut i: usize = 0;
    assert(out@ + enc_cells_from(cells, n as int) =~= base + enc_cells_from(cells, n as int));
    while i < n
        invariant
            i <= n,
            n == cells.len(),
            cells == img.pixels@,
            out@ + enc_cells_from(cells, i as int) == base + enc_cells_from(cells, 0),
        decreases n - i,
    {
        let ghost pre = out@;
        push_cell(&mut out, img.pixels[i]);
        if i < n - 1 {
            out.push(COMMA);
            assert(out@ + enc_cells_from(cells, i + 1) =~= pre + enc_cells_from(cells, i as int));
        } else {
            assert(enc_cells_from(cells, i as int) == cell_lit(cells[i as int]));
            assert(out@ + enc_cells_from(cells, i + 1) =~= pre + enc_cells_from(cells, i as int));
        }
        i = i + 1;
    }
    assert(out@ =~= base + enc_cells_from(cells, 0));
    out.push(RBRACK);
    out.push(RBRACE);
    assert(out@ =~= enc_grid(img.width as int, img.height as int, cells));
    out
}

/// Maps each cell to one grayscale byte: `True` to 0xFF, `False` to 0x00,
/// `Unset` to 0x7F.
pub open spec fn raster_byte(c: Ternary) -> u8 {
    match c {
        Ternary::True => 0xFF,
        Ternary::False => 0x00,
        Ternary::Unset => 0x7F,
    }
}

/// The grayscale raster form of a grid: its dimensions and one byte per
/// cell, row-major, no padding; a pure, deterministic function of the
/// grid alone. The triple is what an external raster encoder is fed with.
pub fn export_raster(img: &Image) -> (r: (u32, u32, Vec<u8>))
    requires
        img.wf(),
    ensures
        r.0 == img.width,
        r.1 == img.height,
        r.2@.len() == img.pixels@.len(),
        forall|i: int| 0 <= i < r.2@.len() ==> r.2@[i] == raster_byte(img.pixels@[i]),
{
    let n = img.pixels.len();
    let mut out: Vec<u8> = Vec::new();
    let mut i: usize = 0;
    while i < n
        invariant
            i <= n,
            n == img.pixels@.len(),
            out@.len() == i,
            forall|j: int| 0 <= j < i ==> out@[j] == raster_byte(img.pixels@[j]),
        decreases n - i,
    {
        let b: u8 = match img.pixels[i] {
            Ternary::True => 0xFF,
            Ternary::False => 0x00,
            Ternary::Unset => 0x7F,
        };
        out.push(b);
        i = i + 1;
    }
    (img.width, img.height, out)
}

/// A byte that may begin a structured-text value.
pub open spec fn is_value_start(c: u8) -> bool {
    is_digit(c) || c == 0x2D || c == QUOTE || c == LBRACE || c == LBRACK || c == 0x74 || c == 0x66
        || c == 0x6E
}

/// Whitespace accepted between tokens.
pub open spec fn is_ws(c: u8) -> bool {
    c == 0x20 || c == 0x09 || c == 0x0A || c == 0x0D
}

pub open spec fn is_digit(c: u8) -> bool {
    ZERO <= c <= 0x39
}

/// The first position at or after `i` that holds no whitespace.
pub open spec fn skip_ws(s: Seq<u8>, i: int) -> int
    decreases s.len() - i,
{
    if 0 <= i < s.len() && is_ws(s[i]) {
        skip_ws(s, i + 1)
    } else {
        i
    }
}

/// `skip_ws` never moves backward, and stays within the input.
proof fn lemma_skip_ws_bounds(s: Seq<u8>, i: int)
    ensures
        skip_ws(s, i) >= i,
        i <= s.len() ==> skip_ws(s, i) <= s.len(),
    decreases s.len() - i,
{
    if 0 <= i < s.len() && is_ws(s[i]) {
        lemma_skip_ws_bounds(s, i + 1);
    }
}

/// The bytes `lit` stand at position `i` of `s`.
pub open spec fn match_lit(s: Seq<u8>, i: int, lit: Seq<u8>) -> bool {
    0 <= i && i + lit.len() <= s.len() && s.subrange(i, i + lit.len()) == lit
}

/// Reads a run of decimal digits left to right, accumulating their value.
pub open spec fn scan_digits(s: Seq<u8>, i: int, acc: int) -> (int, int)
    decreases s.len() - i,
{
    if 0 <= i < s.len() && is_digit(s[i]) {
        scan_digits(s, i + 1, acc * 10 + (s[i] - ZERO))
    } else {
        (acc, i)
    }
}

/// Parses a non-negative integer: a lone `0`, or a nonzero digit followed
/// by more digits, valued at most `u32::MAX`. Yields the value and the
/// position after the digits, or nothing where no such number stands.
pub open spec fn parse_num(s: Seq<u8>, i: int) -> Option<(int, int)> {
    if 0 <= i < s.len() && is_digit(s[i]) {
        if s[i] == ZERO {
            Some((0, i + 1))
        } else {
            let vj = scan_digits(s, i, 0);
            if vj.0 <= u32::MAX {
                Some(vj)
            } else {
                None
            }
        }
    } else {
        None
    }
}

/// Parses one cell value. A value that stands there but is none of the
/// three recognized encodings is a type mismatch; a missing value is
/// corrupt data.
pub open spec fn parse_cell(s: Seq<u8>, i: int) -> Result<(Ternary, int), CodecError> {
    if match_lit(s, i, lit_true()) {
        Ok((Ternary::True, i + 4))
    } else if match_lit(s, i, lit_false()) {
        Ok((Ternary::False, i + 5))
    } else if match_lit(s, i, lit_null()) {
        Ok((Ternary::Unset, i + 4))
    } else if 0 <= i < s.len() && is_value_start(s[i]) {
        Err(CodecError::TypeMismatch)
    } else {
        Err(CodecError::CorruptData)
    }
}

/// Parses a non-empty comma-separated cell list and its closing bracket,
/// starting just after the opening bracket or a comma. Yields the cells
/// and the position after the closing bracket.
pub open spec fn parse_cells(s: Seq<u8>, i: int) -> Result<(Seq<Ternary>, int), CodecError>
    decreases s.len() - i,
    via parse_cells_decreases
{
    let j = skip_ws(s, i);
    match parse_cell(s, j) {
        Err(e) => Err(e),
        Ok(cj) => {
            let k = skip_ws(s, cj.1);
            if k < s.len() && s[k] == COMMA {
                match parse_cells(s, k + 1) {
                    Err(e) => Err(e),
                    Ok(rest) => Ok((seq![cj.0] + rest.0, rest.1)),
                }
            } else if k < s.len() && s[k] == RBRACK {
                Ok((seq![cj.0], k + 1))
            } else {
                Err(CodecError::CorruptData)
            }
        },
    }
}

#[via_fn]
proof fn parse_cells_decreases(s: Seq<u8>, i: int) {
    lemma_skip_ws_bounds(s, i);
    let j = skip_ws(s, i);
    lemma_skip_ws_bounds(s, j + 4);
    lemma_skip_ws_bounds(s, j + 5);
}

/// Parses the pixels array, a possibly empty bracketed cell list, starting
/// just after the colon of the `pixels` field.
pub open spec fn parse_pixels(s: Seq<u8>, i: int) -> Result<(Seq<Ternary>, int), CodecError> {
    let j = skip_ws(s, i);
    if j < s.len() && s[j] == LBRACK {
        let k = skip_ws(s, j + 1);
        if k < s.len() && s[k] == RBRACK {
            Ok((Seq::empty(), k + 1))
        } else {
            parse_cells(s, j + 1)
        }
    } else {
        Err(CodecError::CorruptData)
    }
}

/// The whole load: a document holding, in order, the fields `width`,
/// `height` and `pixels`, with arbitrary whitespace between tokens;
/// the dimensions must be nonzero and the cell count must equal
/// `width * height`.
pub open spec fn spec_load(s: Seq<u8>) -> Result<(u32, u32, Seq<Ternary>), CodecError> {
    let i0 = skip_ws(s, 0);
    if !(i0 < s.len() && s[i0] == LBRACE) {
        Err(CodecError::CorruptData)
    } else {
        let i1 = skip_ws(s, i0 + 1);
        if !match_lit(s, i1, key_width()) {
            Err(CodecError::CorruptData)
        } else {
            let i2 = skip_ws(s, i1 + 7);
            if !(i2 < s.len() && s[i2] == COLON) {
                Err(CodecError::CorruptData)
            } else {
                match parse_num(s, skip_ws(s, i2 + 1)) {
                    None => Err(CodecError::CorruptData),
                    Some(wv) => {
                        let i5 = skip_ws(s, wv.1);
                        if !(i5 < s.len() && s[i5] == COMMA) {
                            Err(CodecError::CorruptData)
                        } else {
                            let i6 = skip_ws(s, i5 + 1);
                            if !match_lit(s, i6, key_height()) {
                                Err(CodecError::CorruptData)
                            } else {
                                let i7 = skip_ws(s, i6 + 8);
                                if !(i7 < s.len() && s[i7] == COLON) {
                                    Err(CodecError::CorruptData)
                                } else {
                                    match parse_num(s, skip_ws(s, i7 + 1)) {
                                        None => Err(CodecError::CorruptData),
                                        Some(hv) => spec_load_tail(s, wv.0, hv.0, hv.1),
                                    }
                                }
                            }
                        }
                    },
                }
            }
        }
    }
}

/// The rest of the load after both dimensions: the comma, the `pixels`
/// field, the closing brace, the end of input, and the shape checks.
pub open spec fn spec_load_tail(s: Seq<u8>, wv: int, hv: int, i: int) -> Result<
    (u32, u32, Seq<Ternary>),
    CodecError,
> {
    let i10 = skip_ws(s, i);
    if !(i10 < s.len() && s[i10] == COMMA) {
        Err(CodecError::CorruptData)
    } else {
        let i11 = skip_ws(s, i10 + 1);
        if !match_lit(s, i11, key_pixels()) {
            Err(CodecError::CorruptData)
        } else {
            let i12 = skip_ws(s, i11 + 8);
            if !(i12 < s.len() && s[i12] == COLON) {
                Err(CodecError::CorruptData)
            } else {
                match parse_pixels(s, i12 + 1) {
                    Err(e) => Err(e),
                    Ok(cells) => {
                        let i14 = skip_ws(s, cells.1);
                        if !(i14 < s.len() && s[i14] == RBRACE) {
                            Err(CodecError::CorruptData)
                        } else if skip_ws(s, i14 + 1) != s.len() {
                            Err(CodecError::CorruptData)
                        } else if wv == 0 || hv == 0 {
                            Err(CodecError::CorruptData)
                        } else if cells.0.len() != wv * hv {
                            Err(CodecError::CorruptData)
                        } else {
                            Ok((wv as u32, hv as u32, cells.0))
                        }
                    },
                }
            }
        }
    }
}

/// Advances past whitespace.
fn ws_to(s: &Vec<u8>, i: usize) -> (j: usize)
    requires
        i <= s@.len(),
    ensures
        j == skip_ws(s@, i as int),
        i <= j <= s@.len(),
{
    let mut j = i;
    while j < s.len() && (s[j] == 0x20 || s[j] == 0x09 || s[j] == 0x0A || s[j] == 0x0D)
        invariant
            i <= j <= s@.len(),
            skip_ws(s@, i as int) == skip_ws(s@, j as int),
        decreases s@.len() - j,
    {
        j = j + 1;
    }
    j
}

/// Reads a non-negative decimal number.
fn read_num(s: &Vec<u8>, i: usize) -> (r: Option<(u32, usize)>)
    requires
        i <= s@.len(),
    ensures
        match (r, parse_num(s@, i as int)) {
            (Some(p), Some(q)) => p.0 == q.0 && p.1 == q.1,
            (None, None) => true,
            _ => false,
        },
{
    if i >= s.len() || !(ZERO <= s[i] && s[i] <= 0x39) {
        return None;
    }
    if s[i] == ZERO {
        return Some((0, i + 1));
    }
    let mut j = i;
    let mut acc: u64 = 0;
    while j < s.len() && ZERO <= s[j] && s[j] <= 0x39
        invariant
            i <= j <= s@.len(),
            i < s@.len(),
            is_digit(s@[i as int]),
            s@[i as int] != ZERO,
            0 <= acc <= u32::MAX,
            scan_digits(s@, i as int, 0) == scan_digits(s@, j as int, acc as int),
        decreases s@.len() - j,
    {
        let ghost j0 = j as int;
        let ghost acc0 = acc as int;
        acc = acc * 10 + ((s[j] - ZERO) as u64);
        j = j + 1;
        proof {
            assert(scan_digits(s@, j0, acc0) == scan_digits(s@, j as int, acc as int));
        }
        if acc > u32::MAX as u64 {
            proof {
                lemma_scan_digits_ge(s@, j as int, acc as int);
                assert(parse_num(s@, i as int) is None);
            }
            return None;
        }
    }
    Some((acc as u32, j))
}

/// The accumulated value of a digit scan never falls below its seed.
proof fn lemma_scan_digits_ge(s: Seq<u8>, i: int, acc: int)
    requires
        acc >= 0,
    ensures
        scan_digits(s, i, acc).0 >= acc,
    decreases s.len() - i,
{
    if 0 <= i < s.len() && is_digit(s[i]) {
        lemma_scan_digits_ge(s, i + 1, acc * 10 + (s[i] - ZERO));
    }
}

/// Reads one cell literal.
fn read_cell(s: &Vec<u8>, i: usize) -> (r: Result<(Ternary, usize), CodecError>)
    requires
        i <= s@.len(),
    ensures
        match (r, parse_cell(s@, i as int)) {
            (Ok(p), Ok(q)) => p.0 == q.0 && p.1 == q.1,
            (Err(a), Err(b)) => a == b,
            _ => false,
        },
{
    let n = s.len();
    if n - i >= 4 && s[i] == 0x74 && s[i + 1] == 0x72 && s[i + 2] == 0x75 && s[i + 3] == 0x65 {
        proof {
            assert(s@.subrange(i as int, i + 4) =~= lit_true());
        }
        return Ok((Ternary::True, i + 4));
    }
    if n - i >= 5 && s[i] == 0x66 && s[i + 1] == 0x61 && s[i + 2] == 0x6C && s[i + 3] == 0x73 && s[
        i + 4] == 0x65 {
        proof {
            assert(s@.subrange(i as int, i + 5) =~= lit_false());
        }
        return Ok((Ternary::False, i + 5));
    }
    if n - i >= 4 && s[i] == 0x6E && s[i + 1] == 0x75 && s[i + 2] == 0x6C && s[i + 3] == 0x6C {
        proof {
            assert(s@.subrange(i as int, i + 4) =~= lit_null());
        }
        return Ok((Ternary::Unset, i + 4));
    }
    proof {
        if match_lit(s@, i as int, lit_true()) {
            assert(s@[i as int] == 0x74 && s@[i + 1] == 0x72 && s@[i + 2] == 0x75 && s@[i + 3]
                == 0x65);
        }
        if match_lit(s@, i as int, lit_false()) {
            assert(s@[i as int] == 0x66 && s@[i + 1] == 0x61 && s@[i + 2] == 0x6C && s@[i + 3]
                == 0x73 && s@[i + 4] == 0x65);
        }
        if match_lit(s@, i as int, lit_null()) {
            assert(s@[i as int] == 0x6E && s@[i + 1] == 0x75 && s@[i + 2] == 0x6C && s@[i + 3]
                == 0x6C);
        }
    }
    if i < n {
        let c = s[i];
        if (ZERO <= c && c <= 0x39) || c == 0x2D || c == QUOTE || c == LBRACE || c == LBRACK || c
            == 0x74 || c == 0x66 || c == 0x6E {
            return Err(CodecError::TypeMismatch);
        }
    }
    Err(CodecError::CorruptData)
}

/// Reads a non-empty cell list through its closing bracket.
fn read_cells(s: &Vec<u8>, i: usize) -> (r: Result<(Vec<Ternary>, usize), CodecError>)
    requires
        i <= s@.len(),
    ensures
        match (r, parse_cells(s@, i as int)) {
            (Ok(p), Ok(q)) => p.0@ == q.0 && p.1 == q.1,
            (Err(a), Err(b)) => a == b,
            _ => false,
        },
{
    let mut cells: Vec<Ternary> = Vec::new();
    let mut cur: usize = i;
    loop
        invariant
            i <= cur <= s@.len(),
            ({
                let rest = parse_cells(s@, cur as int);
                parse_cells(s@, i as int) == (match rest {
                    Ok(p) => Ok::<(Seq<Ternary>, int), CodecError>((cells@ + p.0, p.1)),
                    Err(e) => Err::<(Seq<Ternary>, int), CodecError>(e),
                })
            }),
        decreases s@.len() - cur,
    {
        let ghost pre_cells = cells@;
        let j = ws_to(s, cur);
        match read_cell(s, j) {
            Err(e) => {
                return Err(e);
            },
            Ok((c, j2)) => {
                cells.push(c);
                let k = ws_to(s, j2);
                if k < s.len() && s[k] == COMMA {
                    proof {
                        if parse_cells(s@, k + 1) is Ok {
                            let p = parse_cells(s@, k + 1)->Ok_0;
                            assert(pre_cells + (seq![c] + p.0) =~= cells@ + p.0);
                        }
                    }
                    cur = k + 1;
                } else if k < s.len() && s[k] == RBRACK {
                    proof {
                        assert(pre_cells + seq![c] =~= cells@);
                    }
                    return Ok((cells, k + 1));
                } else {
                    return Err(CodecError::CorruptData);
                }
            },
        }
    }
}

/// Reconstructs a grid from its durable byte form. Succeeds exactly on
/// the inputs `spec_load` accepts, with exactly its grid; fails with
/// exactly its error otherwise.
pub fn load(bytes: &Vec<u8>) -> (r: Result<Image, CodecError>)
    ensures
        match (r, spec_load(bytes@)) {
            (Ok(img), Ok(m)) => img.width == m.0 && img.height == m.1 && img.pixels@ == m.2
                && img.wf(),
            (Err(a), Err(b)) => a == b,
            _ => false,
        },
{
    let s = bytes;
    let i0 = ws_to(s, 0);
    if !(i0 < s.len() && s[i0] == LBRACE) {
        return Err(CodecError::CorruptData);
    }
    let i1 = ws_to(s, i0 + 1);
    if !match_key_width(s, i1) {
        return Err(CodecError::CorruptData);
    }
    let i2 = ws_to(s, i1 + 7);
    if !(i2 < s.len() && s[i2] == COLON) {
        return Err(CodecError::CorruptData);
    }
    let i3 = ws_to(s, i2 + 1);
    let wv: u32;
    let i4: usize;
    match read_num(s, i3) {
        None => {
            return Err(CodecError::CorruptData);
        },
        Some((v, j)) => {
            wv = v;
            i4 = j;
        },
    }
    proof {
        lemma_parse_num_bounds(s@, i3 as int);
    }
    let i5 = ws_to(s, i4);
    if !(i5 < s.len() && s[i5] == COMMA) {
        return Err(CodecError::CorruptData);
    }
    let i6 = ws_to(s, i5 + 1);
    if !match_key_height(s, i6) {
        return Err(CodecError::CorruptData);
    }
    let i7 = ws_to(s, i6 + 8);
    if !(i7 < s.len() && s[i7] == COLON) {
        return Err(CodecError::CorruptData);
    }
    let i8 = ws_to(s, i7 + 1);
    let hv: u32;
    let i9: usize;
    match read_num(s, i8) {
        None => {
            return Err(CodecError::CorruptData);
        },
        Some((v, j)) => {
            hv = v;
            i9 = j;
        },
    }
    proof {
        lemma_parse_num_bounds(s@, i8 as int);
    }
    let i10 = ws_to(s, i9);
    if !(i10 < s.len() && s[i10] == COMMA) {
        return Err(CodecError::CorruptData);
    }
    let i11 = ws_to(s, i10 + 1);
    if !match_key_pixels(s, i11) {
        return Err(CodecError::CorruptData);
    }
    let i12 = ws_to(s, i11 + 8);
    if !(i12 < s.len() && s[i12] == COLON) {
        return Err(CodecError::CorruptData);
    }
    let i13 = ws_to(s, i12 + 1);
    if !(i13 < s.len() && s[i13] == LBRACK) {
        return Err(CodecError::CorruptData);
    }
    let i14 = ws_to(s, i13 + 1);
    let cells: Vec<Ternary>;
    let i15: usize;
    if i14 < s.len() && s[i14] == RBRACK {
        cells = Vec::new();
        i15 = i14 + 1;
    } else {
        match read_cells(s, i13 + 1) {
            Err(e) => {
                return Err(e);
            },
            Ok((cs, j)) => {
                proof {
                    lemma_parse_cells_bounds(s@, i13 + 1);
                }
                cells = cs;
                i15 = j;
            },
        }
    }
    let i16 = ws_to(s, i15);
    if !(i16 < s.len() && s[i16] == RBRACE) {
        return Err(CodecError::CorruptData);
    }
    if ws_to(s, i16 + 1) != s.len() {
        return Err(CodecError::CorruptData);
    }
    if wv == 0 || hv == 0 {
        return Err(CodecError::CorruptData);
    }
    proof {
        assert((wv as int) * (hv as int) <= u64::MAX) by (nonlinear_arith)
            requires
                wv <= u32::MAX,
                hv <= u32::MAX,
        ;
    }
    let prod: u64 = (wv as u64) * (hv as u64);
    let cell_count = cells.len();
    if prod > usize::MAX as u64 || cell_count != prod as usize {
        return Err(CodecError::CorruptData);
    }
    Ok(Image { width: wv, height: hv, pixels: cells })
}

/// A successful number parse ends within the input.
proof fn lemma_parse_num_bounds(s: Seq<u8>, i: int)
    requires
        0 <= i <= s.len(),
        parse_num(s, i) is Some,
    ensures
        i <= parse_num(s, i)->Some_0.1 <= s.len(),
{
    lemma_scan_digits_pos(s, i, 0);
}

/// A digit scan ends within the input, never before its start.
proof fn lemma_scan_digits_pos(s: Seq<u8>, i: int, acc: int)
    requires
        0 <= i <= s.len(),
    ensures
        i <= scan_digits(s, i, acc).1 <= s.len(),
    decreases s.len() - i,
{
    if 0 <= i < s.len() && is_digit(s[i]) {
        lemma_scan_digits_pos(s, i + 1, acc * 10 + (s[i] - ZERO));
    }
}

/// A successful cell-list parse ends within the input.
proof fn lemma_parse_cells_bounds(s: Seq<u8>, i: int)
    requires
        0 <= i <= s.len(),
        parse_cells(s, i) is Ok,
    ensures
        i <= parse_cells(s, i)->Ok_0.1 <= s.len(),
    decreases s.len() - i,
{
    lemma_skip_ws_bounds(s, i);
    let j = skip_ws(s, i);
    match parse_cell(s, j) {
        Err(e) => {},
        Ok(cj) => {
            lemma_skip_ws_bounds(s, cj.1);
            let k = skip_ws(s, cj.1);
            if k < s.len() && s[k] == COMMA {
                lemma_parse_cells_bounds(s, k + 1);
            }
        },
    }
}

fn match_key_width(s: &Vec<u8>, i: usize) -> (r: bool)
    requires
        i <= s@.len(),
    ensures
        r == match_lit(s@, i as int, key_width()),
{
    if s.len() - i < 7 {
        return false;
    }
    let r = s[i] == QUOTE && s[i + 1] == 0x77 && s[i + 2] == 0x69 && s[i + 3] == 0x64 && s[i + 4]
        == 0x74 && s[i + 5] == 0x68 && s[i + 6] == QUOTE;
    proof {
        if r {
            assert(s@.subrange(i as int, i + 7) =~= key_width());
        } else {
            if match_lit(s@, i as int, key_width()) {
                assert(s@[i as int] == QUOTE && s@[i + 1] == 0x77 && s@[i + 2] == 0x69 && s@[i + 3]
                    == 0x64 && s@[i + 4] == 0x74 && s@[i + 5] == 0x68 && s@[i + 6] == QUOTE);
            }
        }
    }
    r
}

fn match_key_height(s: &Vec<u8>, i: usize) -> (r: bool)
    requires
        i <= s@.len(),
    ensures
        r == match_lit(s@, i as int, key_height()),
{
    if s.len() - i < 8 {
        return false;
    }
    let r = s[i] == QUOTE && s[i + 1] == 0x68 && s[i + 2] == 0x65 && s[i + 3] == 0x69 && s[i + 4]
        == 0x67 && s[i + 5] == 0x68 && s[i + 6] == 0x74 && s[i + 7] == QUOTE;
    proof {
        if r {
            assert(s@.subrange(i as int, i + 8) =~= key_height());
        } else {
            if match_lit(s@, i as int, key_height()) {
                assert(s@[i as int] == QUOTE && s@[i + 1] == 0x68 && s@[i + 2] == 0x65 && s@[i + 3]
                    == 0x69 && s@[i + 4] == 0x67 && s@[i + 5] == 0x68 && s@[i + 6] == 0x74 && s@[i
                    + 7] == QUOTE);
            }
        }
    }
    r
}

fn match_key_pixels(s: &Vec<u8>, i: usize) -> (r: bool)
    requires
        i <= s@.len(),
    ensures
        r == match_lit(s@, i as int, key_pixels()),
{
    if s.len() - i < 8 {
        return false;
    }
    let r = s[i] == QUOTE && s[i + 1] == 0x70 && s[i + 2] == 0x69 && s[i + 3] == 0x78 && s[i + 4]
        == 0x65 && s[i + 5] == 0x6C && s[i + 6] == 0x73 && s[i + 7] == QUOTE;
    proof {
        if r {
            assert(s@.subrange(i as int, i + 8) =~= key_pixels());
        } else {
            if match_lit(s@, i as int, key_pixels()) {
                assert(s@[i as int] == QUOTE && s@[i + 1] == 0x70 && s@[i + 2] == 0x69 && s@[i + 3]
                    == 0x78 && s@[i + 4] == 0x65 && s@[i + 5] == 0x6C && s@[i + 6] == 0x73 && s@[i
                    + 7] == QUOTE);
            }
        }
    }
    r
}

/// Powers of ten.
pub open spec fn pow10(k: nat) -> int
    decreases k,
{
    if k == 0 {
        1
    } else {
        10 * pow10((k - 1) as nat)
    }
}

/// The decimal form of a number is non-empty, starts with a digit, and
/// starts with a nonzero digit for a nonzero number.
proof fn lemma_dec_first(n: int)
    requires
        n >= 0,
    ensures
        dec(n).len() >= 1,
        is_digit(dec(n)[0]),
        n >= 1 ==> dec(n)[0] != ZERO,
    decreases n,
{
    if n >= 10 {
        lemma_dec_first(n / 10);
        assert(dec(n)[0] == dec(n / 10)[0]);
    }
}

/// Scanning the decimal form of `n` accumulates exactly `n` onto the seed.
proof fn lemma_scan_encoded(s: Seq<u8>, i: int, n: int, acc: int)
    requires
        n >= 0,
        acc >= 0,
        0 <= i,
        i + dec(n).len() <= s.len(),
        s.subrange(i, i + dec(n).len()) == dec(n),
    ensures
        scan_digits(s, i, acc) == scan_digits(
            s,
            i + dec(n).len(),
            acc * pow10(dec(n).len()) + n,
        ),
    decreases n,
{
    if n < 10 {
        assert(s[i] == dec(n)[0]);
        assert(is_digit(s[i]));
        assert(pow10(1) == 10 * pow10(0));
        assert(scan_digits(s, i, acc) == scan_digits(s, i + 1, acc * 10 + n));
    } else {
        let q = n / 10;
        let r = n % 10;
        let lq = dec(q).len() as int;
        assert(dec(n) == dec(q) + seq![(ZERO + r) as u8]);
        assert(s.subrange(i, i + lq) =~= dec(q)) by {
            assert forall|k: int| 0 <= k < lq implies s.subrange(i, i + lq)[k] == dec(q)[k] by {
                assert(s[i + k] == s.subrange(i, i + dec(n).len())[k]);
            }
        }
        lemma_scan_encoded(s, i, q, acc);
        let a = acc * pow10(lq as nat) + q;
        assert(s[i + lq] == dec(n)[lq]);
        assert(dec(n)[lq] == (ZERO + r) as u8);
        assert(is_digit(s[i + lq]));
        lemma_pow10_pos(lq as nat);
        assert(a >= 0) by {
            assert(acc * pow10(lq as nat) >= 0) by (nonlinear_arith)
                requires
                    acc >= 0,
                    pow10(lq as nat) >= 1,
            ;
        }
        assert(scan_digits(s, i + lq, a) == scan_digits(s, i + lq + 1, a * 10 + (s[i + lq] - ZERO)));
        assert(a * 10 + r == acc * pow10((lq + 1) as nat) + n) by {
            assert(pow10((lq + 1) as nat) == 10 * pow10(lq as nat));
            assert(acc * pow10(lq as nat) * 10 == acc * (10 * pow10(lq as nat))) by (nonlinear_arith);
            assert(q * 10 + r == n);
        }
        assert(dec(n).len() == lq + 1);
    }
}

/// Powers of ten are positive.
proof fn lemma_pow10_pos(k: nat)
    ensures
        pow10(k) >= 1,
    decreases k,
{
    if k > 0 {
        lemma_pow10_pos((k - 1) as nat);
    }
}

/// Parsing at the decimal form of `n`, followed by a non-digit, yields
/// exactly `n`.
proof fn lemma_parse_num_encoded(s: Seq<u8>, i: int, n: int)
    requires
        0 <= n <= u32::MAX,
        0 <= i,
        i + dec(n).len() <= s.len(),
        s.subrange(i, i + dec(n).len()) == dec(n),
        i + dec(n).len() == s.len() || !is_digit(s[i + dec(n).len()]),
    ensures
        parse_num(s, i) == Some((n, i + dec(n).len())),
{
    lemma_dec_first(n);
    assert(s[i] == dec(n)[0]);
    if n == 0 {
        assert(dec(0) == seq![ZERO]);
        assert(s[i] == ZERO);
    } else {
        assert(s[i] != ZERO);
        lemma_scan_encoded(s, i, n, 0);
        let l = dec(n).len() as int;
        assert(0 * pow10(l as nat) == 0) by (nonlinear_arith);
        assert(scan_digits(s, i, 0) == scan_digits(s, i + l, n));
        assert(scan_digits(s, i + l, n) == (n, i + l));
    }
}

/// Parsing at the encoding of `cells[c..]`, followed by the closing
/// bracket, yields exactly those cells.
proof fn lemma_parse_cells_encoded(s: Seq<u8>, i: int, cells: Seq<Ternary>, c: int)
    requires
        0 <= c < cells.len(),
        0 <= i,
        i + enc_cells_from(cells, c).len() + 1 <= s.len(),
        s.subrange(i, i + enc_cells_from(cells, c).len()) == enc_cells_from(cells, c),
        s[i + enc_cells_from(cells, c).len()] == RBRACK,
    ensures
        parse_cells(s, i) == Ok::<(Seq<Ternary>, int), CodecError>(
            (cells.subrange(c, cells.len() as int), i + enc_cells_from(cells, c).len() + 1),
        ),
    decreases cells.len() - c,
{
    let e = enc_cells_from(cells, c);
    let le = e.len() as int;
    let lit = cell_lit(cells[c]);
    let ll = lit.len() as int;
    assert(s[i] == e[0]);
    assert(e[0] == lit[0]);
    assert(!is_ws(s[i]));
    assert(skip_ws(s, i) == i);
    assert(s.subrange(i, i + ll) =~= lit) by {
        assert forall|k: int| 0 <= k < ll implies s.subrange(i, i + ll)[k] == lit[k] by {
            assert(s[i + k] == s.subrange(i, i + le)[k]);
            assert(e[k] == lit[k]);
        }
    }
    if match_lit(s, i, lit_true()) {
        assert(s[i] == lit_true()[0]);
    }
    if match_lit(s, i, lit_false()) {
        assert(s[i] == lit_false()[0]);
    }
    if match_lit(s, i, lit_null()) {
        assert(s[i] == lit_null()[0]);
    }
    assert(parse_cell(s, i) == Ok::<(Ternary, int), CodecError>((cells[c], i + ll)));
    if c == cells.len() - 1 {
        assert(e == lit);
        assert(s[i + ll] == RBRACK);
        assert(!is_ws(s[i + ll]));
        assert(skip_ws(s, i + ll) == i + ll);
        assert(seq![cells[c]] =~= cells.subrange(c, cells.len() as int));
    } else {
        let rest = enc_cells_from(cells, c + 1);
        let lr = rest.len() as int;
        assert(e == lit + seq![COMMA] + rest);
        assert(le == ll + 1 + lr);
        assert(s[i + ll] == e[ll]);
        assert(e[ll] == COMMA);
        assert(!is_ws(s[i + ll]));
        assert(skip_ws(s, i + ll) == i + ll);
        assert(s.subrange(i + ll + 1, i + ll + 1 + lr) =~= rest) by {
            assert forall|k: int| 0 <= k < lr implies s.subrange(i + ll + 1, i + ll + 1 + lr)[k]
                == rest[k] by {
                assert(s[i + ll + 1 + k] == s.subrange(i, i + le)[ll + 1 + k]);
                assert(e[ll + 1 + k] == rest[k]);
            }
        }
        assert(s[i + ll + 1 + lr] == RBRACK);
        lemma_parse_cells_encoded(s, i + ll + 1, cells, c + 1);
        assert(seq![cells[c]] + cells.subrange(c + 1, cells.len() as int) =~= cells.subrange(
            c,
            cells.len() as int,
        ));
    }
}

/// The saved form of a grid lays its tokens out at fixed offsets around
/// the variable-length number and cell regions.
#[verifier::rlimit(100)]
proof fn lemma_enc_grid_layout(w: int, h: int, cells: Seq<Ternary>)
    requires
        1 <= w <= u32::MAX,
        1 <= h <= u32::MAX,
        cells.len() >= 1,
    ensures
        ({
            let s = enc_grid(w, h, cells);
            let lw = dec(w).len() as int;
            let lh = dec(h).len() as int;
            let lc = enc_cells_from(cells, 0).len() as int;
            &&& s.len() == 32 + lw + lh + lc
            &&& s[0] == LBRACE
            &&& s.subrange(1, 8) == key_width()
            &&& s[8] == COLON
            &&& s.subrange(9, 9 + lw) == dec(w)
            &&& s[9 + lw] == COMMA
            &&& s.subrange(10 + lw, 18 + lw) == key_height()
            &&& s[18 + lw] == COLON
            &&& s.subrange(19 + lw, 19 + lw + lh) == dec(h)
            &&& s[19 + lw + lh] == COMMA
            &&& s.subrange(20 + lw + lh, 28 + lw + lh) == key_pixels()
            &&& s[28 + lw + lh] == COLON
            &&& s[29 + lw + lh] == LBRACK
            &&& s.subrange(30 + lw + lh, 30 + lw + lh + lc) == enc_cells_from(cells, 0)
            &&& s[30 + lw + lh + lc] == RBRACK
            &&& s[31 + lw + lh + lc] == RBRACE
        }),
{
    let s = enc_grid(w, h, cells);
    let dw = dec(w);
    let dh = dec(h);
    let ec = enc_cells_from(cells, 0);
    let lw = dw.len() as int;
    let lh = dh.len() as int;
    let lc = ec.len() as int;
    let a = seq![LBRACE] + key_width() + seq![COLON];
    let b = seq![COMMA] + key_height() + seq![COLON];
    let c = seq![COMMA] + key_pixels() + seq![COLON, LBRACK];
    let d = seq![RBRACK, RBRACE];
    assert(s =~= a + dw + b + dh + c + ec + d);
    assert(s.len() == 32 + lw + lh + lc);
    assert(s[0] == LBRACE);
    assert(s.subrange(1, 8) =~= key_width());
    assert(s[8] == COLON);
    assert(s.subrange(9, 9 + lw) =~= dw);
    assert(s[9 + lw] == COMMA);
    assert(s.subrange(10 + lw, 18 + lw) =~= key_height());
    assert(s[18 + lw] == COLON);
    assert(s.subrange(19 + lw, 19 + lw + lh) =~= dh);
    assert(s[19 + lw + lh] == COMMA);
    assert(s.subrange(20 + lw + lh, 28 + lw + lh) =~= key_pixels());
    assert(s[28 + lw + lh] == COLON);
    assert(s[29 + lw + lh] == LBRACK);
    assert(s.subrange(30 + lw + lh, 30 + lw + lh + lc) =~= ec);
    assert(s[30 + lw + lh + lc] == RBRACK);
    assert(s[31 + lw + lh + lc] == RBRACE);
}

/// Round trip: loading the saved form of any valid grid yields exactly
/// that grid.
#[verifier::rlimit(100)]
pub proof fn lemma_load_save_roundtrip(w: int, h: int, cells: Seq<Ternary>)
    requires
        1 <= w <= u32::MAX,
        1 <= h <= u32::MAX,
        cells.len() == w * h,
    ensures
        spec_load(enc_grid(w, h, cells)) == Ok::<(u32, u32, Seq<Ternary>), CodecError>(
            (w as u32, h as u32, cells),
        ),
{
    assert(cells.len() >= 1) by (nonlinear_arith)
        requires
            w >= 1,
            h >= 1,
            cells.len() == w * h,
    ;
    let s = enc_grid(w, h, cells);
    let dw = dec(w);
    let dh = dec(h);
    let ec = enc_cells_from(cells, 0);
    let lw = dw.len() as int;
    let lh = dh.len() as int;
    let lc = ec.len() as int;
    lemma_dec_first(w);
    lemma_dec_first(h);
    lemma_enc_grid_layout(w, h, cells);
    lemma_parse_num_encoded(s, 9, w);
    lemma_parse_num_encoded(s, 19 + lw, h);
    lemma_parse_cells_encoded(s, 30 + lw + lh, cells, 0);
    assert(cells.subrange(0, cells.len() as int) =~= cells);
    assert(s[30 + lw + lh] == ec[0]);
    assert(ec[0] == cell_lit(cells[0])[0]);
    assert(!is_ws(s[30 + lw + lh]) && s[30 + lw + lh] != RBRACK);
    assert(skip_ws(s, 0) == 0);
    assert(skip_ws(s, 1) == 1);
    assert(skip_ws(s, 9) == 9);
    assert(skip_ws(s, 9 + lw) == 9 + lw);
    assert(skip_ws(s, 10 + lw) == 10 + lw);
    assert(skip_ws(s, 19 + lw) == 19 + lw);
    assert(skip_ws(s, 19 + lw + lh) == 19 + lw + lh);
    assert(skip_ws(s, 20 + lw + lh) == 20 + lw + lh);
    assert(skip_ws(s, 29 + lw + lh) == 29 + lw + lh);
    assert(skip_ws(s, 30 + lw + lh) == 30 + lw + lh);
    assert(skip_ws(s, 31 + lw + lh + lc) == 31 + lw + lh + lc);
    assert(skip_ws(s, 32 + lw + lh + lc) == 32 + lw + lh + lc);
    assert(parse_pixels(s, 29 + lw + lh) == Ok::<(Seq<Ternary>, int), CodecError>(
        (cells, 31 + lw + lh + lc),
    ));
    assert(spec_load_tail(s, w, h, 19 + lw + lh) == Ok::<(u32, u32, Seq<Ternary>), CodecError>(
        (w as u32, h as u32, cells),
    ));
}

} // verus!
