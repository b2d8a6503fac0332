//! Laws that hold of the instruction semantics, each proved once and
//! for all over the machine model.

use vstd::prelude::*;

use crate::model::MachineModel;
use crate::model::blank_screen;
use crate::model::draw_collision_upto;
use crate::model::draw_flips;
use crate::model::draw_hits;
use crate::model::draw_step_collides;
use crate::model::fetched_op;
use crate::model::first_pressed_from;
use crate::model::op_fam;
use crate::model::op_n;
use crate::model::op_nn;
use crate::model::op_nnn;
use crate::model::op_x;
use crate::model::op_y;
use crate::model::spec_execute;
use crate::model::sprite_row_bit;
use crate::model::step_outcome;
use crate::model::step_pixel;

verus! {

/// The add-immediate opcode wraps silently: for any byte pair fetched
/// and executed as an add-immediate, the target register afterwards
/// holds the prior value plus the immediate, modulo 256, and no fault
/// occurs.
pub proof fn lemma_add_immediate_wraps(m: MachineModel, rb: u8)
    requires
        m.wf(),
        m.pc + 1 < 4096,
        op_fam(fetched_op(m)) == 0x7,
    ensures
        ({
            let op = fetched_op(m);
            step_outcome(m, rb) matches Ok(m2) && m2.regs[op_x(op)] == (m.regs[op_x(op)] + op_nn(
                op,
            )) % 256
        }),
{
}

/// The add-registers opcode reports its carry: the flag register
/// becomes 1 exactly when the operands sum past 255, and the target
/// register (when it is not the flag register itself) holds the sum
/// modulo 256.
pub proof fn lemma_add_registers_carry(m: MachineModel, op: u16, rb: u8)
    requires
        m.wf(),
        op_fam(op) == 0x8,
        op_n(op) == 0x4,
    ensures
        spec_execute(m, op, rb) matches Ok(m2) && m2.regs[15] == (if m.regs[op_x(op)]
            + m.regs[op_y(op)] > 255 {
            1u8
        } else {
            0u8
        }) && (op_x(op) != 15 ==> m2.regs[op_x(op)] == (m.regs[op_x(op)] + m.regs[op_y(op)])
            % 256),
{
}

/// The subtract opcodes report a borrow with inverted polarity: the
/// flag register becomes 1 exactly when no borrow occurred, and the
/// target register (when it is not the flag register) holds the
/// difference modulo 256.
pub proof fn lemma_sub_registers_borrow(m: MachineModel, op: u16, rb: u8)
    requires
        m.wf(),
        op_fam(op) == 0x8,
        op_n(op) == 0x5,
    ensures
        spec_execute(m, op, rb) matches Ok(m2) && m2.regs[15] == (if m.regs[op_x(op)]
            >= m.regs[op_y(op)] {
            1u8
        } else {
            0u8
        }) && (op_x(op) != 15 ==> m2.regs[op_x(op)] == (m.regs[op_x(op)] - m.regs[op_y(op)] + 256)
            % 256),
{
    let x = op_x(op);
    let y = op_y(op);
    assert((m.regs[x] - m.regs[y] + 256) % 256 == if m.regs[x] >= m.regs[y] {
        m.regs[x] - m.regs[y]
    } else {
        m.regs[x] - m.regs[y] + 256
    });
}

/// The clear-screen opcode never faults and turns every pixel off,
/// whatever was drawn before.
pub proof fn lemma_clear_screen(m: MachineModel, rb: u8)
    requires
        m.wf(),
    ensures
        spec_execute(m, 0x00E0, rb) matches Ok(m2) && m2.screen == blank_screen() && forall|p: int|
            0 <= p < 2048 ==> !m2.screen[p],
{
}

/// With no key at or above `i` pressed, the key scan finds nothing.
proof fn lemma_first_pressed_none(keys: Seq<bool>, i: int)
    requires
        0 <= i <= 16,
        forall|j: int| i <= j < 16 ==> !keys[j],
    ensures
        first_pressed_from(keys, i) == None::<u8>,
    decreases 16 - i,
{
    if i < 16 {
        lemma_first_pressed_none(keys, i + 1);
    }
}

/// With `k` pressed and nothing below it from `i` on, the key scan
/// from `i` finds exactly `k`.
proof fn lemma_first_pressed_found(keys: Seq<bool>, i: int, k: int)
    requires
        0 <= i <= k < 16,
        keys[k],
        forall|j: int| i <= j < k ==> !keys[j],
    ensures
        first_pressed_from(keys, i) == Some(k as u8),
    decreases k - i,
{
    if i < k {
        lemma_first_pressed_found(keys, i + 1, k);
    }
}

/// The key-wait opcode blocks by re-fetching: with no key pressed, a
/// whole step leaves the machine exactly as it was, so the same
/// instruction is fetched again on the next step.
pub proof fn lemma_wait_key_blocks(m: MachineModel, rb: u8)
    requires
        m.wf(),
        m.pc + 1 < 4096,
        op_fam(fetched_op(m)) == 0xF,
        op_nn(fetched_op(m)) == 0x0A,
        forall|i: int| 0 <= i < 16 ==> !m.keys[i],
    ensures
        step_outcome(m, rb) matches Ok(m2) && m2 == m,
{
    lemma_first_pressed_none(m.keys, 0);
    let m2 = step_outcome(m, rb)->Ok_0;
    assert(m2 =~= m);
}

/// With some key pressed, the key-wait opcode stores the
/// lowest-indexed pressed key and lets execution proceed past the
/// instruction.
pub proof fn lemma_wait_key_takes_lowest(m: MachineModel, rb: u8, k: int)
    requires
        m.wf(),
        m.pc + 1 < 4096,
        op_fam(fetched_op(m)) == 0xF,
        op_nn(fetched_op(m)) == 0x0A,
        0 <= k < 16,
        m.keys[k],
        forall|j: int| 0 <= j < k ==> !m.keys[j],
    ensures
        step_outcome(m, rb) matches Ok(m2) && m2 == m.with_pc((m.pc + 2) as u16).with_reg(
            op_x(fetched_op(m)),
            k as u8,
        ),
{
    lemma_first_pressed_found(m.keys, 0, k);
}

/// A call followed by a return restores the program counter to the
/// return point: the address just past the call instruction.
pub proof fn lemma_call_then_return(m: MachineModel, rb1: u8, rb2: u8)
    requires
        m.wf(),
        m.pc + 1 < 4096,
        m.sp < 16,
        op_fam(fetched_op(m)) == 0x2,
        op_nnn(fetched_op(m)) + 1 < 4096,
        m.ram[op_nnn(fetched_op(m)) as int] == 0x00,
        m.ram[op_nnn(fetched_op(m)) + 1] == 0xEE,
    ensures
        step_outcome(m, rb1) matches Ok(m1) && step_outcome(m1, rb2) matches Ok(m2) && m2.pc == (
        m.pc + 2) as u16,
{
    let m1 = step_outcome(m, rb1)->Ok_0;
    assert(fetched_op(m1) == 0x00EE);
}

/// With no hit at `p` among the first `n` draw steps, the toggle parity
/// at `p` stays even.
proof fn lemma_no_hit_parity(ram: Seq<u8>, i_reg: u16, xc: u8, yc: u8, n: nat, p: int)
    requires
        forall|t: int| 0 <= t < n ==> !draw_hits(ram, i_reg, xc, yc, t, p),
    ensures
        !draw_flips(ram, i_reg, xc, yc, n, p),
    decreases n,
{
    if n > 0 {
        lemma_no_hit_parity(ram, i_reg, xc, yc, (n - 1) as nat, p);
    }
}

/// With exactly one hit at `p` among the first `n` draw steps, the
/// toggle parity at `p` comes out odd.
proof fn lemma_single_hit_parity(
    ram: Seq<u8>,
    i_reg: u16,
    xc: u8,
    yc: u8,
    n: nat,
    n0: int,
    p: int,
)
    requires
        0 <= n0 < n,
        draw_hits(ram, i_reg, xc, yc, n0, p),
        forall|t: int| 0 <= t < n && t != n0 ==> !draw_hits(ram, i_reg, xc, yc, t, p),
    ensures
        draw_flips(ram, i_reg, xc, yc, n, p),
    decreases n,
{
    if n0 == n - 1 {
        lemma_no_hit_parity(ram, i_reg, xc, yc, (n - 1) as nat, p);
    } else {
        lemma_single_hit_parity(ram, i_reg, xc, yc, (n - 1) as nat, n0, p);
    }
}

/// Distinct draw steps of one sprite land on distinct pixels: the rows
/// are fewer than the display's height and a row's eight columns are
/// fewer than its width, so neither axis can wrap onto itself.
proof fn lemma_step_pixel_injective(xc: u8, yc: u8, a: int, b: int)
    requires
        0 <= a < b < 128,
    ensures
        step_pixel(xc, yc, a) != step_pixel(xc, yc, b),
{
    let ra = a / 8;
    let ca = a % 8;
    let rb = b / 8;
    let cb = b % 8;
    assert(0 <= ra < 16 && 0 <= rb < 16 && 0 <= ca < 8 && 0 <= cb < 8);
    let pxa = (xc + ca) % 64;
    let pya = (yc + ra) % 32;
    let pxb = (xc + cb) % 64;
    let pyb = (yc + rb) % 32;
    assert(0 <= pxa < 64 && 0 <= pya < 32 && 0 <= pxb < 64 && 0 <= pyb < 32);
    if step_pixel(xc, yc, a) == step_pixel(xc, yc, b) {
        assert(pxa + 64 * pya == pxb + 64 * pyb);
        assert(pxa == pxb && pya == pyb);
        assert((yc + ra) == 32 * ((yc + ra) / 32) + pya);
        assert((yc + rb) == 32 * ((yc + rb) / 32) + pyb);
        assert(ra == rb);
        assert(ca != cb);
        assert((xc + ca) == 64 * ((xc + ca) / 64) + pxa);
        assert((xc + cb) == 64 * ((xc + cb) / 64) + pxb);
        assert(ca == cb);
        assert(false);
    }
}

/// The least draw step whose sprite bit is lit, given that some step's
/// bit is lit.
proof fn lemma_least_lit_step(ram: Seq<u8>, i_reg: u16, n: nat) -> (n0: int)
    requires
        exists|t: int| 0 <= t < n && sprite_row_bit(ram, i_reg, t),
    ensures
        0 <= n0 < n,
        sprite_row_bit(ram, i_reg, n0),
        forall|t: int| 0 <= t < n0 ==> !sprite_row_bit(ram, i_reg, t),
    decreases n,
{
    if exists|t: int| 0 <= t < n - 1 && sprite_row_bit(ram, i_reg, t) {
        lemma_least_lit_step(ram, i_reg, (n - 1) as nat)
    } else {
        let t = choose|t: int| 0 <= t < n && sprite_row_bit(ram, i_reg, t);
        assert(t == n - 1);
        t
    }
}

/// A collision at step `n0` makes the whole draw of `n` steps report a
/// collision.
proof fn lemma_collision_at(
    screen: Seq<bool>,
    ram: Seq<u8>,
    i_reg: u16,
    xc: u8,
    yc: u8,
    n: nat,
    n0: int,
)
    requires
        0 <= n0 < n,
        draw_step_collides(screen, ram, i_reg, xc, yc, n0),
    ensures
        draw_collision_upto(screen, ram, i_reg, xc, yc, n),
    decreases n,
{
    if n0 < n - 1 {
        lemma_collision_at(screen, ram, i_reg, xc, yc, (n - 1) as nat, n0);
    }
}

/// With no colliding step, the draw reports no collision.
proof fn lemma_no_collision(screen: Seq<bool>, ram: Seq<u8>, i_reg: u16, xc: u8, yc: u8, n: nat)
    requires
        forall|t: int| 0 <= t < n ==> !draw_step_collides(screen, ram, i_reg, xc, yc, t),
    ensures
        !draw_collision_upto(screen, ram, i_reg, xc, yc, n),
    decreases n,
{
    if n > 0 {
        lemma_no_collision(screen, ram, i_reg, xc, yc, (n - 1) as nat);
    }
}

/// Drawing the same sprite twice at the same anchor restores the
/// display exactly: each affected pixel is toggled once per draw. The
/// anchor registers must not be the flag register, which the first
/// draw overwrites.
pub proof fn lemma_draw_twice_restores(m: MachineModel, op: u16, rb1: u8, rb2: u8)
    requires
        m.wf(),
        op_fam(op) == 0xD,
        op_x(op) != 15,
        op_y(op) != 15,
        !(op_n(op) > 0 && m.i_reg + op_n(op) > 4096),
    ensures
        spec_execute(m, op, rb1) matches Ok(m1) && (spec_execute(m1, op, rb2) matches Ok(m2)
            && m2.screen == m.screen),
{
    let x = op_x(op);
    let y = op_y(op);
    let m1 = spec_execute(m, op, rb1)->Ok_0;
    assert(m1.regs[x] == m.regs[x] && m1.regs[y] == m.regs[y]);
    let m2 = spec_execute(m1, op, rb2)->Ok_0;
    assert(m2.screen =~= m.screen);
}

/// Drawing a sprite with at least one lit bit twice at the same anchor
/// onto a blank display reports no collision the first time and a
/// collision the second time: the first draw lit the pixels that the
/// second finds in its way.
pub proof fn lemma_draw_twice_collides(m: MachineModel, op: u16, rb1: u8, rb2: u8)
    requires
        m.wf(),
        op_fam(op) == 0xD,
        op_x(op) != 15,
        op_y(op) != 15,
        op_n(op) > 0,
        m.i_reg + op_n(op) <= 4096,
        forall|p: int| 0 <= p < 2048 ==> !m.screen[p],
        exists|t: int| 0 <= t < 8 * op_n(op) && sprite_row_bit(m.ram, m.i_reg, t),
    ensures
        spec_execute(m, op, rb1) matches Ok(m1) && (m1.regs[15] == 0 && (spec_execute(
            m1,
            op,
            rb2,
        ) matches Ok(m2) && m2.regs[15] == 1)),
{
    let x = op_x(op);
    let y = op_y(op);
    let k = op_n(op);
    let xc = m.regs[x];
    let yc = m.regs[y];
    let n = (8 * k) as nat;
    assert(n <= 128);

    // Every lit step hits a pixel that no other step touches.
    assert forall|t: int, u: int|
        0 <= t < n && 0 <= u < n && t != u && sprite_row_bit(m.ram, m.i_reg, t) implies !(
        #[trigger] draw_hits(m.ram, m.i_reg, xc, yc, u, step_pixel(xc, yc, t))) by {
        if sprite_row_bit(m.ram, m.i_reg, u) {
            if t < u {
                lemma_step_pixel_injective(xc, yc, t, u);
            } else {
                lemma_step_pixel_injective(xc, yc, u, t);
            }
        }
    }

    // The first draw collides nowhere: the display is blank and each
    // lit step's pixel was untouched by the earlier steps.
    assert forall|t: int| 0 <= t < n implies !draw_step_collides(
        m.screen,
        m.ram,
        m.i_reg,
        xc,
        yc,
        t,
    ) by {
        if sprite_row_bit(m.ram, m.i_reg, t) {
            let pt = step_pixel(xc, yc, t);
            lemma_no_hit_parity(m.ram, m.i_reg, xc, yc, t as nat, pt);
            assert(0 <= pt < 2048);
            assert(!m.screen[pt]);
        }
    }
    lemma_no_collision(m.screen, m.ram, m.i_reg, xc, yc, n);
    let m1 = spec_execute(m, op, rb1)->Ok_0;
    assert(m1.regs[15] == 0);
    assert(m1.regs[x] == xc && m1.regs[y] == yc);

    // The least lit step of the second draw finds its pixel lit: the
    // first draw toggled it exactly once, and no earlier step of the
    // second draw has touched it yet.
    let n0 = lemma_least_lit_step(m.ram, m.i_reg, n);
    let p0 = step_pixel(xc, yc, n0);
    assert(0 <= p0 < 2048);
    assert(forall|t: int| 0 <= t < n0 ==> !draw_hits(m.ram, m.i_reg, xc, yc, t, p0));
    lemma_no_hit_parity(m.ram, m.i_reg, xc, yc, n0 as nat, p0);
    lemma_single_hit_parity(m.ram, m.i_reg, xc, yc, n, n0, p0);
    assert(m1.screen[p0]);
    assert(draw_step_collides(m1.screen, m.ram, m.i_reg, xc, yc, n0));
    lemma_collision_at(m1.screen, m.ram, m.i_reg, xc, yc, n, n0);
    let m2 = spec_execute(m1, op, rb2)->Ok_0;
    assert(m2.regs[15] == 1);
}

/// Only the random-mask opcode consumes the random byte: a step whose
/// fetched instruction is any other opcode has the same outcome
/// whatever byte the entropy source returned.
pub proof fn lemma_step_deterministic_unless_random(m: MachineModel, rb1: u8, rb2: u8)
    requires
        m.wf(),
        m.pc + 1 < 4096 ==> op_fam(fetched_op(m)) != 0xC,
    ensures
        step_outcome(m, rb1) == step_outcome(m, rb2),
{
}

} // verus!

