//! Composes the status frame: the entropy level and one row per unit with
//! its reservation, the weight of `|1>` as a bar, and whether its qubit is
//! definite.
use vstd::prelude::*;
use vstd::string::StringSliceAdditionalSpecFns;
use crate::kernel::{QuantumResource, QuantumResourceManager, SLOT_COUNT};
use crate::quantum::{weight_one, weight_zero, QubitState, VirtualQuantumHAL};
use crate::vga::{
    barred, clear_buffer, cleared, draw_bar, draw_num, num_drawn, print_buffer, printed,
};

verus! {

pub const TITLE: &'static str = "ITO-OS [QUANTUM CORE]";

pub const LABEL_ENTROPY: &'static str = "ENTROPY:";

pub const LABEL_UNIT: &'static str = "UNIT";

pub const LABEL_PSI: &'static str = "|psi>";

pub const LABEL_IDLE: &'static str = "[IDLE   ]";

pub const LABEL_ZERO: &'static str = "[ |0> ]";

pub const LABEL_ONE: &'static str = "[ |1> ]";

pub const LABEL_SUPER: &'static str = "[SUPER]";

/// Blanks over an idle unit's bar.
pub const BLANK_BAR: &'static str = "          ";

/// Blanks over an idle unit's state label.
pub const BLANK_LABEL: &'static str = "       ";

pub const FOOTER: &'static str = "CTRL: [A] ALLOC+H  [R] RESET  [SPACE] MEASURE";

/// Shown once the system has collapsed.
pub const COLLAPSE_MESSAGE: &'static str = " !!! CRITICAL QUANTUM COLLAPSE !!! ";

pub const COLOR_TITLE: u8 = 0x1B;

pub const COLOR_TEXT: u8 = 0x07;

pub const COLOR_VALUE: u8 = 0x0E;

pub const COLOR_DIM: u8 = 0x08;

pub const COLOR_PSI: u8 = 0x0B;

pub const COLOR_BAR: u8 = 0x20;

pub const COLOR_ZERO: u8 = 0x0A;

pub const COLOR_ONE: u8 = 0x0C;

pub const COLOR_SUPER: u8 = 0x0D;

pub const COLOR_BLACK: u8 = 0x00;

pub const COLOR_ALERT: u8 = 0x4F;

pub const COLOR_ALERT_TEXT: u8 = 0x1F;

/// Row of the first unit.
pub const FIRST_UNIT_ROW: usize = 6;

/// Cells of a unit's bar.
pub const BAR_WIDTH: u8 = 10;

/// Length of the bar for `q`: tenths of the weight of `|1>`, rounded down.
pub open spec fn bar_level(q: QubitState) -> int {
    let total = weight_zero(q) + weight_one(q);
    weight_one(q) * 10 / if total > 0 { total } else { 1 }
}

/// The label of `q` and its colour.
pub open spec fn state_label(q: QubitState) -> (Seq<u8>, u8) {
    if q.a.re == 256 {
        (LABEL_ZERO.spec_bytes(), COLOR_ZERO)
    } else if q.b.re == 256 {
        (LABEL_ONE.spec_bytes(), COLOR_ONE)
    } else {
        (LABEL_SUPER.spec_bytes(), COLOR_SUPER)
    }
}

/// `buf` with the title and the entropy level drawn.
pub open spec fn header_drawn(buf: Seq<u8>, entropy: u64) -> Seq<u8> {
    let b1 = printed(buf, TITLE.spec_bytes(), 0, COLOR_TITLE);
    let b2 = printed(b1, LABEL_ENTROPY.spec_bytes(), 162, COLOR_TEXT);
    num_drawn(b2, entropy as nat, 175, COLOR_VALUE)
}

/// `buf` with the row of unit `i`, in slot `s` with qubit `q`, drawn.
pub open spec fn unit_row_drawn(buf: Seq<u8>, i: int, s: QuantumResource, q: QubitState) -> Seq<u8> {
    let base = (6 + i) * 80;
    let b1 = printed(buf, LABEL_UNIT.spec_bytes(), base + 2, COLOR_DIM);
    let b2 = num_drawn(b1, i as nat, base + 7, COLOR_DIM);
    if s.is_busy {
        let b3 = printed(b2, LABEL_PSI.spec_bytes(), base + 10, COLOR_PSI);
        let b4 = barred(b3, base + 19, bar_level(q), 10, COLOR_BAR, COLOR_DIM);
        printed(b4, state_label(q).0, base + 32, state_label(q).1)
    } else {
        let b3 = printed(b2, LABEL_IDLE.spec_bytes(), base + 10, COLOR_TEXT);
        let b4 = printed(b3, BLANK_BAR.spec_bytes(), base + 19, COLOR_BLACK);
        printed(b4, BLANK_LABEL.spec_bytes(), base + 32, COLOR_BLACK)
    }
}

/// `buf` with the rows of the first `n` units drawn, in order.
pub open spec fn rows_drawn(
    buf: Seq<u8>,
    slots: Seq<QuantumResource>,
    qubits: Seq<QubitState>,
    n: nat,
) -> Seq<u8>
    decreases n,
{
    if n == 0 {
        buf
    } else {
        let m = (n - 1) as nat;
        unit_row_drawn(rows_drawn(buf, slots, qubits, m), m as int, slots[m as int], qubits[m as int])
    }
}

/// `buf` with the whole status frame drawn.
pub open spec fn frame_drawn(
    buf: Seq<u8>,
    slots: Seq<QuantumResource>,
    entropy: u64,
    qubits: Seq<QubitState>,
) -> Seq<u8> {
    printed(
        rows_drawn(header_drawn(buf, entropy), slots, qubits, 8),
        FOOTER.spec_bytes(),
        1922,
        COLOR_DIM,
    )
}

proof fn lemma_bar_level_bound(w1: int, total: int)
    requires
        0 <= w1 <= total,
        total >= 1,
    ensures
        0 <= w1 * 10 / total <= 10,
{
    assert(0 <= w1 * 10 / total <= 10) by (nonlinear_arith)
        requires
            0 <= w1 <= total,
            total >= 1,
    ;
}

/// Draws the row of unit `i`.
fn render_unit(buffer: &mut [u8; 4000], i: usize, slot: QuantumResource, q: QubitState)
    requires
        i < 8,
    ensures
        final(buffer)@ == unit_row_drawn(old(buffer)@, i as int, slot, q),
{
    let row: usize = FIRST_UNIT_ROW + i;
    print_buffer(buffer, LABEL_UNIT.as_bytes(), row, 2, COLOR_DIM);
    draw_num(buffer, i as u64, row, 7, COLOR_DIM);
    if slot.is_busy {
        let w0 = q.a.norm_sq();
        let w1 = q.b.norm_sq();
        let sum = w0 + w1;
        let total: u64 = if sum > 0 { sum } else { 1 };
        proof {
            lemma_bar_level_bound(w1 as int, total as int);
        }
        let level: u8 = ((w1 * 10) / total) as u8;
        print_buffer(buffer, LABEL_PSI.as_bytes(), row, 10, COLOR_PSI);
        draw_bar(buffer, row, 19, level, BAR_WIDTH, COLOR_BAR, COLOR_DIM);
        if q.a.re == 256 {
            print_buffer(buffer, LABEL_ZERO.as_bytes(), row, 32, COLOR_ZERO);
        } else if q.b.re == 256 {
            print_buffer(buffer, LABEL_ONE.as_bytes(), row, 32, COLOR_ONE);
        } else {
            print_buffer(buffer, LABEL_SUPER.as_bytes(), row, 32, COLOR_SUPER);
        }
    } else {
        print_buffer(buffer, LABEL_IDLE.as_bytes(), row, 10, COLOR_TEXT);
        print_buffer(buffer, BLANK_BAR.as_bytes(), row, 19, COLOR_BLACK);
        print_buffer(buffer, BLANK_LABEL.as_bytes(), row, 32, COLOR_BLACK);
    }
}

/// Draws the status frame of `mgr` and `env` over `buffer`: title, entropy,
/// one row per unit and the key legend. Cells it does not draw keep their
/// contents.
pub fn render(buffer: &mut [u8; 4000], mgr: &QuantumResourceManager, env: &VirtualQuantumHAL)
    requires
        env.wf(),
    ensures
        final(buffer)@ == frame_drawn(old(buffer)@, mgr.slots@, env@.entropy, env@.qubits),
{
    print_buffer(buffer, TITLE.as_bytes(), 0, 0, COLOR_TITLE);
    print_buffer(buffer, LABEL_ENTROPY.as_bytes(), 2, 2, COLOR_TEXT);
    draw_num(buffer, env.get_entropy(), 2, 15, COLOR_VALUE);
    let ghost head = buffer@;
    let mut i: usize = 0;
    while i < SLOT_COUNT
        invariant
            i <= 8,
            env.wf(),
            head == header_drawn(old(buffer)@, env@.entropy),
            buffer@ == rows_drawn(head, mgr.slots@, env@.qubits, i as nat),
        decreases 8 - i,
    {
        let q = env.get_qubit(i);
        render_unit(buffer, i, mgr.slots[i], q);
        i += 1;
    }
    print_buffer(buffer, FOOTER.as_bytes(), 24, 2, COLOR_DIM);
}

/// The frame shown after a fatal collapse.
pub open spec fn collapse_frame() -> Seq<u8> {
    printed(cleared(COLOR_ALERT), COLLAPSE_MESSAGE.spec_bytes(), 820, COLOR_ALERT_TEXT)
}

/// Replaces the frame with the collapse alert: every cell blank on the alert
/// colour, with the message on row 10 from column 20.
pub fn render_collapse(buffer: &mut [u8; 4000])
    ensures
        final(buffer)@ == collapse_frame(),
{
    clear_buffer(buffer, COLOR_ALERT);
    print_buffer(buffer, COLLAPSE_MESSAGE.as_bytes(), 10, 20, COLOR_ALERT_TEXT);
}

} // verus!
