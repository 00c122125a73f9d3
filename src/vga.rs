//! Drawing into an 80x25 text frame: two bytes per cell, glyph then colour.
//! Writes that fall outside the frame are dropped.
use vstd::prelude::*;

verus! {

/// Columns of the frame.
pub const COLS: usize = 80;

/// Rows of the frame.
pub const ROWS: usize = 25;

/// Cells of the frame.
pub const CELLS: usize = 2000;

/// Bytes of the frame: a glyph and a colour per cell.
pub const BUFFER_LEN: usize = 4000;

/// Glyph of a blank cell.
pub const GLYPH_BLANK: u8 = 32;

/// Glyph of a filled bar cell.
pub const GLYPH_FULL: u8 = 35;

/// Glyph of an empty bar cell.
pub const GLYPH_EMPTY: u8 = 46;

/// Glyph of the digit zero; the other digits follow it.
pub const GLYPH_ZERO: u8 = 48;

/// `buf` with cell `pos` set to glyph `ch` in `color`; unchanged when `pos`
/// is outside the frame.
pub open spec fn put_cell(buf: Seq<u8>, pos: int, ch: u8, color: u8) -> Seq<u8> {
    if 0 <= pos && 2 * pos < BUFFER_LEN {
        buf.update(2 * pos, ch).update(2 * pos + 1, color)
    } else {
        buf
    }
}

/// A frame of blanks in `color`.
pub open spec fn cleared(color: u8) -> Seq<u8> {
    Seq::new(BUFFER_LEN as nat, |k: int| if k % 2 == 0 { 32u8 } else { color })
}

/// `buf` with `msg` written in `color` from cell `start` onwards.
pub open spec fn printed(buf: Seq<u8>, msg: Seq<u8>, start: int, color: u8) -> Seq<u8> {
    Seq::new(
        buf.len(),
        |k: int|
            if 0 <= k / 2 - start < msg.len() && k < BUFFER_LEN {
                if k % 2 == 0 {
                    msg[k / 2 - start]
                } else {
                    color
                }
            } else {
                buf[k]
            },
    )
}

/// `buf` with a bar of `max` cells from cell `start`: the first `val` are
/// `#` in `c_full`, the rest `.` in `c_empty`.
pub open spec fn barred(buf: Seq<u8>, start: int, val: int, max: int, c_full: u8, c_empty: u8) -> Seq<
    u8,
> {
    Seq::new(
        buf.len(),
        |k: int|
            if 0 <= k / 2 - start < max && k < BUFFER_LEN {
                if k / 2 - start < val {
                    if k % 2 == 0 {
                        35u8
                    } else {
                        c_full
                    }
                } else {
                    if k % 2 == 0 {
                        46u8
                    } else {
                        c_empty
                    }
                }
            } else {
                buf[k]
            },
    )
}

/// `buf` with at most `k` low decimal digits of `v` written right to left
/// from cell `pos`, stopping when the digits run out.
pub open spec fn digits_drawn(buf: Seq<u8>, v: nat, pos: int, k: nat, color: u8) -> Seq<u8>
    decreases k,
{
    if v == 0 || k == 0 {
        buf
    } else {
        digits_drawn(put_cell(buf, pos, (48 + v % 10) as u8, color), v / 10, pos - 1, (k - 1) as nat, color)
    }
}

/// Widest number `draw_num` writes, in digits.
pub const NUM_WIDTH: usize = 5;

/// `buf` after `draw_num`: `0` for zero, else up to five low digits ending
/// at cell `pos`.
pub open spec fn num_drawn(buf: Seq<u8>, val: nat, pos: int, color: u8) -> Seq<u8> {
    if val == 0 {
        printed(buf, seq![48u8], pos, color)
    } else {
        digits_drawn(buf, val, pos, NUM_WIDTH as nat, color)
    }
}

/// Fills the frame with blanks in `color`.
pub fn clear_buffer(buffer: &mut [u8; 4000], color: u8)
    ensures
        final(buffer)@ == cleared(color),
{
    let mut i: usize = 0;
    while i < COLS * ROWS
        invariant
            i <= 2000,
            buffer@.len() == BUFFER_LEN,
            forall|k: int|
                0 <= k < 2 * i ==> #[trigger] buffer@[k] == if k % 2 == 0 { 32u8 } else { color },
        decreases 2000 - i,
    {
        buffer[i * 2] = GLYPH_BLANK;
        buffer[i * 2 + 1] = color;
        i += 1;
    }
    assert(buffer@ =~= cleared(color));
}

/// Writes `msg` in `color` from (`row`, `col`) onwards, running on into the
/// following rows; bytes past the end of the frame are dropped.
pub fn print_buffer(buffer: &mut [u8; 4000], msg: &[u8], row: usize, col: usize, color: u8)
    ensures
        final(buffer)@ == printed(old(buffer)@, msg@, row * COLS + col, color),
{
    if row >= ROWS || col >= CELLS {
        assert(buffer@ =~= printed(old(buffer)@, msg@, row * COLS + col, color));
        return;
    }
    let start: usize = row * COLS + col;
    let mut i: usize = 0;
    while i < msg.len() && start + i < CELLS
        invariant
            i <= msg@.len(),
            start == row * COLS + col,
            start < 4000,
            i > 0 ==> start + i <= 2000,
            buffer@ == printed(old(buffer)@, msg@.take(i as int), start as int, color),
        decreases msg@.len() - i,
    {
        let idx: usize = (start + i) * 2;
        buffer[idx] = msg[i];
        buffer[idx + 1] = color;
        i += 1;
        assert(buffer@ =~= printed(old(buffer)@, msg@.take(i as int), start as int, color));
    }
    assert(buffer@ =~= printed(old(buffer)@, msg@, start as int, color));
}

proof fn lemma_digits_off_frame(buf: Seq<u8>, v: nat, pos: int, k: nat, color: u8)
    requires
        pos - k >= CELLS - 1,
    ensures
        digits_drawn(buf, v, pos, k, color) == buf,
    decreases k,
{
    if v != 0 && k != 0 {
        lemma_digits_off_frame(buf, v / 10, pos - 1, (k - 1) as nat, color);
    }
}

/// Writes `val` in decimal with its last digit at (`row`, `col`): `0` for
/// zero, else at most its five lowest digits, right to left. Digits that fall
/// outside the frame are dropped.
pub fn draw_num(buffer: &mut [u8; 4000], val: u64, row: usize, col: usize, color: u8)
    ensures
        final(buffer)@ == num_drawn(old(buffer)@, val as nat, row * COLS + col, color),
{
    if val == 0 {
        let zero: [u8; 1] = [GLYPH_ZERO];
        assert(zero@ =~= seq![48u8]);
        print_buffer(buffer, zero.as_slice(), row, col, color);
        return;
    }
    if row > ROWS || col > CELLS + NUM_WIDTH {
        proof {
            lemma_digits_off_frame(buffer@, val as nat, row * COLS + col, NUM_WIDTH as nat, color);
        }
        return;
    }
    let start: usize = row * COLS + col;
    let mut v: u64 = val;
    let mut i: usize = 0;
    while v > 0 && i < NUM_WIDTH
        invariant
            i <= NUM_WIDTH,
            start == row * COLS + col,
            start <= 4005,
            buffer@.len() == BUFFER_LEN,
            digits_drawn(buffer@, v as nat, start - i, (NUM_WIDTH - i) as nat, color)
                == digits_drawn(old(buffer)@, val as nat, start as int, NUM_WIDTH as nat, color),
        decreases NUM_WIDTH - i,
    {
        let ghost before = buffer@;
        let glyph: u8 = GLYPH_ZERO + (v % 10) as u8;
        if start >= i {
            let pos: usize = start - i;
            if pos < CELLS {
                buffer[pos * 2] = glyph;
                buffer[pos * 2 + 1] = color;
            }
        }
        assert(buffer@ =~= put_cell(before, start - i, glyph, color));
        v = v / 10;
        i += 1;
    }
}

/// Draws a bar of `max` cells from (`row`, `col`): the first `val` are `#`
/// in `c_full`, the rest `.` in `c_empty`. Cells outside the frame are
/// dropped.
pub fn draw_bar(
    buffer: &mut [u8; 4000],
    row: usize,
    col: usize,
    val: u8,
    max: u8,
    c_full: u8,
    c_empty: u8,
)
    ensures
        final(buffer)@ == barred(old(buffer)@, row * COLS + col, val as int, max as int, c_full, c_empty),
{
    if row >= ROWS || col >= CELLS {
        assert(buffer@ =~= barred(old(buffer)@, row * COLS + col, val as int, max as int, c_full, c_empty));
        return;
    }
    let start: usize = row * COLS + col;
    let mut i: usize = 0;
    while i < max as usize && start + i < CELLS
        invariant
            i <= max,
            start == row * COLS + col,
            start < 4000,
            i > 0 ==> start + i <= 2000,
            buffer@ == barred(old(buffer)@, start as int, val as int, i as int, c_full, c_empty),
        decreases max - i,
    {
        let idx: usize = (start + i) * 2;
        if i < val as usize {
            buffer[idx] = GLYPH_FULL;
            buffer[idx + 1] = c_full;
        } else {
            buffer[idx] = GLYPH_EMPTY;
            buffer[idx + 1] = c_empty;
        }
        i += 1;
        assert(buffer@ =~= barred(old(buffer)@, start as int, val as int, i as int, c_full, c_empty));
    }
    assert(buffer@ =~= barred(old(buffer)@, start as int, val as int, max as int, c_full, c_empty));
}

} // verus!
