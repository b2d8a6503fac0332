//! Mathematical model of the emulated machine.
//!
//! `MachineModel` is the view of the executable machine state, and
//! `spec_execute` / `step_outcome` give the exact meaning of one
//! instruction: every executable operation of the library is specified
//! against these functions.

use vstd::prelude::*;

use crate::Chip8Error;

verus! {

/// Address at which a loaded program image begins.
pub const START_ADDR: u16 = 0x200;

/// The machine state as mathematics: every field of the executable
/// machine appears here as a plain value or a sequence.
#[verifier::ext_equal]
pub ghost struct MachineModel {
    pub pc: u16,
    pub ram: Seq<u8>,
    pub screen: Seq<bool>,
    pub regs: Seq<u8>,
    pub i_reg: u16,
    pub sp: u16,
    pub stack: Seq<u16>,
    pub keys: Seq<bool>,
    pub delay: u8,
    pub sound: u8,
}

impl MachineModel {
    /// Well-formedness: all storage has its fixed size and the stack
    /// pointer stays within the stack's capacity.
    pub open spec fn wf(self) -> bool {
        &&& self.ram.len() == 4096
        &&& self.screen.len() == 2048
        &&& self.regs.len() == 16
        &&& self.stack.len() == 16
        &&& self.keys.len() == 16
        &&& self.sp <= 16
    }

    pub open spec fn with_pc(self, pc: u16) -> Self {
        MachineModel { pc, ..self }
    }

    pub open spec fn with_reg(self, x: int, v: u8) -> Self {
        MachineModel { regs: self.regs.update(x, v), ..self }
    }

    pub open spec fn with_regs(self, regs: Seq<u8>) -> Self {
        MachineModel { regs, ..self }
    }

    pub open spec fn with_i(self, i_reg: u16) -> Self {
        MachineModel { i_reg, ..self }
    }

    pub open spec fn with_ram(self, ram: Seq<u8>) -> Self {
        MachineModel { ram, ..self }
    }

    pub open spec fn with_screen(self, screen: Seq<bool>) -> Self {
        MachineModel { screen, ..self }
    }

    pub open spec fn with_keys(self, keys: Seq<bool>) -> Self {
        MachineModel { keys, ..self }
    }

    pub open spec fn with_timers(self, delay: u8, sound: u8) -> Self {
        MachineModel { delay, sound, ..self }
    }
}

/// A countdown timer one tick later: toward zero, clamped at zero.
pub open spec fn dec_timer(t: u8) -> u8 {
    if t > 0 {
        (t - 1) as u8
    } else {
        0
    }
}

/// The state every machine starts in: font in low memory, program
/// counter at the start address, everything else zeroed.
pub open spec fn initial_model() -> MachineModel {
    MachineModel {
        pc: START_ADDR,
        ram: Seq::new(4096, |i: int| if i < 80 { crate::font::font_sel(i) } else { 0u8 }),
        screen: blank_screen(),
        regs: Seq::new(16, |i: int| 0u8),
        i_reg: 0,
        sp: 0,
        stack: Seq::new(16, |i: int| 0u16),
        keys: Seq::new(16, |i: int| false),
        delay: 0,
        sound: 0,
    }
}

/// Leading nibble of an instruction word: selects the opcode family.
pub open spec fn op_fam(op: u16) -> u16 {
    op / 0x1000
}

/// Second nibble: the register index `x`.
pub open spec fn op_x(op: u16) -> int {
    ((op / 0x100) % 0x10) as int
}

/// Third nibble: the register index `y`.
pub open spec fn op_y(op: u16) -> int {
    ((op / 0x10) % 0x10) as int
}

/// Trailing nibble: sub-opcode selector or sprite row count.
pub open spec fn op_n(op: u16) -> int {
    (op % 0x10) as int
}

/// Low 12 bits: an absolute address.
pub open spec fn op_nnn(op: u16) -> u16 {
    op % 0x1000
}

/// Low byte: an immediate operand.
pub open spec fn op_nn(op: u16) -> u8 {
    (op % 0x100) as u8
}

/// 8-bit subtraction that wraps silently.
pub open spec fn wrap_sub8(a: u8, b: u8) -> u8 {
    if a >= b {
        (a - b) as u8
    } else {
        (a - b + 256) as u8
    }
}

/// A display of the fixed size with every pixel off.
pub open spec fn blank_screen() -> Seq<bool> {
    Seq::new(2048, |p: int| false)
}

/// Index of the lowest-numbered pressed key at or above `i`, if any.
pub open spec fn first_pressed_from(keys: Seq<bool>, i: int) -> Option<u8>
    decreases 16 - i,
{
    if i < 0 || i >= 16 {
        None
    } else if keys[i] {
        Some(i as u8)
    } else {
        first_pressed_from(keys, i + 1)
    }
}

/// The bit mask selecting sprite column `col`, most significant first.
pub open spec fn bit_mask(col: int) -> u8 {
    if col == 0 {
        0x80
    } else if col == 1 {
        0x40
    } else if col == 2 {
        0x20
    } else if col == 3 {
        0x10
    } else if col == 4 {
        0x08
    } else if col == 5 {
        0x04
    } else if col == 6 {
        0x02
    } else {
        0x01
    }
}

/// Whether bit `col` (most significant first) of a sprite row is set.
pub open spec fn sprite_bit(pixels: u8, col: int) -> bool {
    (pixels / bit_mask(col)) % 2 == 1
}

/// Flat display index targeted by sprite cell (`row`, `col`) of a draw
/// anchored at coordinates (`xc`, `yc`); both axes wrap.
pub open spec fn pixel_index(xc: u8, yc: u8, row: int, col: int) -> int {
    (xc + col) % 64 + 64 * ((yc + row) % 32)
}

/// Whether draw step `n` (row `n / 8`, column `n % 8`) falls on a lit
/// sprite bit.
pub open spec fn sprite_row_bit(ram: Seq<u8>, i_reg: u16, n: int) -> bool {
    sprite_bit(ram[i_reg + n / 8], n % 8)
}

/// The display index draw step `n` is aimed at.
pub open spec fn step_pixel(xc: u8, yc: u8, n: int) -> int {
    pixel_index(xc, yc, n / 8, n % 8)
}

/// Whether draw step `n` (row `n / 8`, column `n % 8`) toggles pixel `p`.
pub open spec fn draw_hits(ram: Seq<u8>, i_reg: u16, xc: u8, yc: u8, n: int, p: int) -> bool {
    &&& sprite_row_bit(ram, i_reg, n)
    &&& step_pixel(xc, yc, n) == p
}

/// Whether the first `n` draw steps toggle pixel `p` an odd number of
/// times.
pub open spec fn draw_flips(ram: Seq<u8>, i_reg: u16, xc: u8, yc: u8, n: nat, p: int) -> bool
    decreases n,
{
    if n == 0 {
        false
    } else {
        draw_flips(ram, i_reg, xc, yc, (n - 1) as nat, p) != draw_hits(
            ram,
            i_reg,
            xc,
            yc,
            n - 1,
            p,
        )
    }
}

/// The display after a draw of `k` sprite rows onto `screen`.
pub open spec fn draw_screen(
    screen: Seq<bool>,
    ram: Seq<u8>,
    i_reg: u16,
    xc: u8,
    yc: u8,
    k: int,
) -> Seq<bool> {
    Seq::new(2048, |p: int| screen[p] != draw_flips(ram, i_reg, xc, yc, (8 * k) as nat, p))
}

/// Whether draw step `n` lands on a pixel that is lit at the moment the
/// step reaches it, starting from display `screen`.
pub open spec fn draw_step_collides(
    screen: Seq<bool>,
    ram: Seq<u8>,
    i_reg: u16,
    xc: u8,
    yc: u8,
    n: int,
) -> bool {
    &&& sprite_row_bit(ram, i_reg, n)
    &&& screen[step_pixel(xc, yc, n)] != draw_flips(ram, i_reg, xc, yc, n as nat, step_pixel(xc, yc, n))
}

/// Whether one of the first `n` draw steps lands on a pixel that is lit
/// at the moment the step reaches it.
pub open spec fn draw_collision_upto(
    screen: Seq<bool>,
    ram: Seq<u8>,
    i_reg: u16,
    xc: u8,
    yc: u8,
    n: nat,
) -> bool
    decreases n,
{
    if n == 0 {
        false
    } else {
        draw_collision_upto(screen, ram, i_reg, xc, yc, (n - 1) as nat) || draw_step_collides(
            screen,
            ram,
            i_reg,
            xc,
            yc,
            n - 1,
        )
    }
}

/// Whether a draw of `k` rows toggles off any pixel that was lit.
pub open spec fn draw_collision(
    screen: Seq<bool>,
    ram: Seq<u8>,
    i_reg: u16,
    xc: u8,
    yc: u8,
    k: int,
) -> bool {
    draw_collision_upto(screen, ram, i_reg, xc, yc, (8 * k) as nat)
}

/// One unfolding of `draw_flips`: step `n` toggles the parity at `p`
/// exactly when it hits `p`.
pub proof fn lemma_draw_flips_step(ram: Seq<u8>, i_reg: u16, xc: u8, yc: u8, n: nat, p: int)
    ensures
        draw_flips(ram, i_reg, xc, yc, (n + 1) as nat, p) == (draw_flips(ram, i_reg, xc, yc, n, p)
            != draw_hits(ram, i_reg, xc, yc, n as int, p)),
{
}

/// One unfolding of `draw_collision_upto`: step `n` collides exactly
/// when it hits a pixel that the earlier steps left lit.
pub proof fn lemma_draw_collision_step(
    screen: Seq<bool>,
    ram: Seq<u8>,
    i_reg: u16,
    xc: u8,
    yc: u8,
    n: nat,
)
    ensures
        draw_collision_upto(screen, ram, i_reg, xc, yc, (n + 1) as nat) == (draw_collision_upto(
            screen,
            ram,
            i_reg,
            xc,
            yc,
            n,
        ) || draw_step_collides(screen, ram, i_reg, xc, yc, n as int)),
{
}

/// Memory after registers `0 ..= x` are stored starting at `i_reg`.
pub open spec fn stored_ram(ram: Seq<u8>, regs: Seq<u8>, i_reg: u16, x: int) -> Seq<u8> {
    Seq::new(4096, |j: int| if i_reg <= j <= i_reg + x { regs[j - i_reg] } else { ram[j] })
}

/// Registers after `0 ..= x` are loaded from memory starting at `i_reg`.
pub open spec fn loaded_regs(regs: Seq<u8>, ram: Seq<u8>, i_reg: u16, x: int) -> Seq<u8> {
    Seq::new(16, |j: int| if j <= x { ram[i_reg + j] } else { regs[j] })
}

/// Memory after a program image `data` is copied in at the start
/// address.
pub open spec fn loaded_ram(ram: Seq<u8>, data: Seq<u8>) -> Seq<u8> {
    Seq::new(
        4096,
        |j: int| if 0x200 <= j < 0x200 + data.len() { data[j - 0x200] } else { ram[j] },
    )
}

/// The effect of one decoded instruction on machine state `m`, whose
/// program counter has already been advanced past the instruction.
/// `rb` is the externally drawn random byte, consumed only by the
/// random-mask opcode. An `Err` outcome leaves the state untouched.
pub open spec fn spec_execute(m: MachineModel, op: u16, rb: u8) -> Result<
    MachineModel,
    Chip8Error,
> {
    let fam = op_fam(op);
    let x = op_x(op);
    let y = op_y(op);
    let n = op_n(op);
    let nnn = op_nnn(op);
    let nn = op_nn(op);
    if op == 0x0000 {
        Ok(m)
    } else if op == 0x00E0 {
        Ok(m.with_screen(blank_screen()))
    } else if op == 0x00EE {
        if m.sp == 0 {
            Err(Chip8Error::StackUnderflow)
        } else {
            Ok(MachineModel { pc: m.stack[m.sp - 1], sp: (m.sp - 1) as u16, ..m })
        }
    } else if fam == 0x1 {
        Ok(m.with_pc(nnn))
    } else if fam == 0x2 {
        if m.sp >= 16 {
            Err(Chip8Error::StackOverflow)
        } else {
            Ok(
                MachineModel {
                    stack: m.stack.update(m.sp as int, m.pc),
                    sp: (m.sp + 1) as u16,
                    pc: nnn,
                    ..m
                },
            )
        }
    } else if fam == 0x3 {
        Ok(if m.regs[x] == nn { m.with_pc((m.pc + 2) as u16) } else { m })
    } else if fam == 0x4 {
        Ok(if m.regs[x] != nn { m.with_pc((m.pc + 2) as u16) } else { m })
    } else if fam == 0x5 && n == 0x0 {
        Ok(if m.regs[x] == m.regs[y] { m.with_pc((m.pc + 2) as u16) } else { m })
    } else if fam == 0x6 {
        Ok(m.with_reg(x, nn))
    } else if fam == 0x7 {
        Ok(m.with_reg(x, ((m.regs[x] + nn) % 256) as u8))
    } else if fam == 0x8 && n == 0x0 {
        Ok(m.with_reg(x, m.regs[y]))
    } else if fam == 0x8 && n == 0x1 {
        Ok(m.with_reg(x, m.regs[x] | m.regs[y]))
    } else if fam == 0x8 && n == 0x2 {
        Ok(m.with_reg(x, m.regs[x] & m.regs[y]))
    } else if fam == 0x8 && n == 0x3 {
        Ok(m.with_reg(x, m.regs[x] ^ m.regs[y]))
    } else if fam == 0x8 && n == 0x4 {
        let flag: u8 = if m.regs[x] + m.regs[y] > 255 {
            1
        } else {
            0
        };
        Ok(m.with_reg(x, ((m.regs[x] + m.regs[y]) % 256) as u8).with_reg(15, flag))
    } else if fam == 0x8 && n == 0x5 {
        let flag: u8 = if m.regs[x] >= m.regs[y] {
            1
        } else {
            0
        };
        Ok(m.with_reg(x, wrap_sub8(m.regs[x], m.regs[y])).with_reg(15, flag))
    } else if fam == 0x8 && n == 0x6 {
        Ok(m.with_reg(x, (m.regs[x] / 2) as u8).with_reg(15, (m.regs[x] % 2) as u8))
    } else if fam == 0x8 && n == 0x7 {
        let flag: u8 = if m.regs[y] >= m.regs[x] {
            1
        } else {
            0
        };
        Ok(m.with_reg(x, wrap_sub8(m.regs[y], m.regs[x])).with_reg(15, flag))
    } else if fam == 0x8 && n == 0xE {
        Ok(m.with_reg(x, ((m.regs[x] * 2) % 256) as u8).with_reg(15, (m.regs[x] / 128) as u8))
    } else if fam == 0x9 && n == 0x0 {
        Ok(if m.regs[x] != m.regs[y] { m.with_pc((m.pc + 2) as u16) } else { m })
    } else if fam == 0xA {
        Ok(m.with_i(nnn))
    } else if fam == 0xB {
        Ok(m.with_pc((nnn + m.regs[0]) as u16))
    } else if fam == 0xC {
        Ok(m.with_reg(x, rb & nn))
    } else if fam == 0xD {
        if n > 0 && m.i_reg + n > 4096 {
            Err(Chip8Error::MemoryOutOfRange)
        } else {
            let xc = m.regs[x];
            let yc = m.regs[y];
            let flag: u8 = if draw_collision(m.screen, m.ram, m.i_reg, xc, yc, n) {
                1
            } else {
                0
            };
            Ok(m.with_screen(draw_screen(m.screen, m.ram, m.i_reg, xc, yc, n)).with_reg(15, flag))
        }
    } else if fam == 0xE && nn == 0x9E {
        if m.regs[x] >= 16 {
            Err(Chip8Error::KeyOutOfRange)
        } else {
            Ok(if m.keys[m.regs[x] as int] { m.with_pc((m.pc + 2) as u16) } else { m })
        }
    } else if fam == 0xE && nn == 0xA1 {
        if m.regs[x] >= 16 {
            Err(Chip8Error::KeyOutOfRange)
        } else {
            Ok(if !m.keys[m.regs[x] as int] { m.with_pc((m.pc + 2) as u16) } else { m })
        }
    } else if fam == 0xF && nn == 0x07 {
        Ok(m.with_reg(x, m.delay))
    } else if fam == 0xF && nn == 0x0A {
        match first_pressed_from(m.keys, 0) {
            Some(k) => Ok(m.with_reg(x, k)),
            None => Ok(m.with_pc((m.pc - 2) as u16)),
        }
    } else if fam == 0xF && nn == 0x15 {
        Ok(MachineModel { delay: m.regs[x], ..m })
    } else if fam == 0xF && nn == 0x18 {
        Ok(MachineModel { sound: m.regs[x], ..m })
    } else if fam == 0xF && nn == 0x1E {
        Ok(m.with_i(((m.i_reg + m.regs[x]) % 0x10000) as u16))
    } else if fam == 0xF && nn == 0x29 {
        Ok(m.with_i((m.regs[x] * 5) as u16))
    } else if fam == 0xF && nn == 0x33 {
        if m.i_reg + 2 >= 4096 {
            Err(Chip8Error::MemoryOutOfRange)
        } else {
            let v = m.regs[x];
            Ok(
                m.with_ram(
                    m.ram.update(m.i_reg as int, (v / 100) as u8).update(
                        m.i_reg + 1,
                        ((v / 10) % 10) as u8,
                    ).update(m.i_reg + 2, (v % 10) as u8),
                ),
            )
        }
    } else if fam == 0xF && nn == 0x55 {
        if m.i_reg + x >= 4096 {
            Err(Chip8Error::MemoryOutOfRange)
        } else {
            Ok(m.with_ram(stored_ram(m.ram, m.regs, m.i_reg, x)))
        }
    } else if fam == 0xF && nn == 0x65 {
        if m.i_reg + x >= 4096 {
            Err(Chip8Error::MemoryOutOfRange)
        } else {
            Ok(m.with_regs(loaded_regs(m.regs, m.ram, m.i_reg, x)))
        }
    } else {
        Err(Chip8Error::UnknownOpcode(op))
    }
}

/// The instruction word fetched big-endian at the program counter.
pub open spec fn fetched_op(m: MachineModel) -> u16 {
    (m.ram[m.pc as int] * 256 + m.ram[m.pc + 1]) as u16
}

/// The machine after one whole step: fetch, advance, execute.
pub open spec fn step_outcome(m: MachineModel, rb: u8) -> Result<MachineModel, Chip8Error> {
    if m.pc + 1 >= 4096 {
        Err(Chip8Error::MemoryOutOfRange)
    } else {
        spec_execute(m.with_pc((m.pc + 2) as u16), fetched_op(m), rb)
    }
}

/// The state a failing step leaves behind: a fetch fault changes
/// nothing, a decode or execution fault leaves only the fetch advance.
pub open spec fn step_err_state(m: MachineModel) -> MachineModel {
    if m.pc + 1 >= 4096 {
        m
    } else {
        m.with_pc((m.pc + 2) as u16)
    }
}

/// Relation between the state before a step, the state after it, the
/// random byte drawn for it, and its result.
pub open spec fn step_rel(
    pre: MachineModel,
    post: MachineModel,
    rb: u8,
    r: Result<(), Chip8Error>,
) -> bool {
    match step_outcome(pre, rb) {
        Ok(m2) => r is Ok && post == m2,
        Err(e) => r == Err::<(), Chip8Error>(e) && post == step_err_state(pre),
    }
}

} // verus!
