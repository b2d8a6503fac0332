//! The executable machine: owned state plus the fetch/decode/execute
//! cycle, the timer tick, and the host-facing entry points.

use vstd::prelude::*;

use rand::Rng;

use crate::Chip8Error;
use crate::font::font_byte;
use crate::model::MachineModel;
use crate::model::START_ADDR;
use crate::model::bit_mask;
use crate::model::blank_screen;
use crate::model::dec_timer;
use crate::model::draw_collision;
use crate::model::draw_collision_upto;
use crate::model::draw_flips;
use crate::model::draw_hits;
use crate::model::draw_screen;
use crate::model::fetched_op;
use crate::model::first_pressed_from;
use crate::model::initial_model;
use crate::model::lemma_draw_collision_step;
use crate::model::lemma_draw_flips_step;
use crate::model::loaded_ram;
use crate::model::loaded_regs;
use crate::model::op_fam;
use crate::model::op_n;
use crate::model::op_nn;
use crate::model::op_nnn;
use crate::model::op_x;
use crate::model::op_y;
use crate::model::pixel_index;
use crate::model::spec_execute;
use crate::model::sprite_bit;
use crate::model::step_rel;
use crate::model::stored_ram;
use crate::model::wrap_sub8;

verus! {

/// The emulated machine: all hardware state, privately owned.
pub struct Emulator {
    program_counter: u16,
    ram: Vec<u8>,
    screen: Vec<bool>,
    v_registers: Vec<u8>,
    i_register: u16,
    stack_pointer: u16,
    stack: Vec<u16>,
    keys: Vec<bool>,
    delay_timer: u8,
    sound_timer: u8,
}

impl View for Emulator {
    type V = MachineModel;

    closed spec fn view(&self) -> MachineModel {
        MachineModel {
            pc: self.program_counter,
            ram: self.ram@,
            screen: self.screen@,
            regs: self.v_registers@,
            i_reg: self.i_register,
            sp: self.stack_pointer,
            stack: self.stack@,
            keys: self.keys@,
            delay: self.delay_timer,
            sound: self.sound_timer,
        }
    }
}

/// A vector of `n` copies of `v`.
fn filled_vec<T: Copy>(n: usize, v: T) -> (r: Vec<T>)
    ensures
        r@.len() == n,
        forall|j: int| 0 <= j < n ==> r@[j] == v,
{
    let mut r: Vec<T> = Vec::new();
    let mut i: usize = 0;
    while i < n
        invariant
            i <= n,
            r@.len() == i,
            forall|j: int| 0 <= j < i ==> r@[j] == v,
        decreases n - i,
    {
        r.push(v);
        i += 1;
    }
    r
}

impl Emulator {
    /// A machine in its canonical initial state.
    pub fn new() -> (r: Self)
        ensures
            r@ == initial_model(),
            r@.wf(),
    {
        let mut ram = filled_vec::<u8>(4096, 0);
        let mut i: usize = 0;
        while i < 80
            invariant
                i <= 80,
                ram@.len() == 4096,
                forall|j: int| 0 <= j < i ==> ram@[j] == crate::font::font_sel(j),
                forall|j: int| i <= j < 4096 ==> ram@[j] == 0u8,
            decreases 80 - i,
        {
            let b = font_byte(i);
            ram[i] = b;
            i += 1;
        }
        let r = Emulator {
            program_counter: START_ADDR,
            ram,
            screen: filled_vec::<bool>(2048, false),
            v_registers: filled_vec::<u8>(16, 0),
            i_register: 0,
            stack_pointer: 0,
            stack: filled_vec::<u16>(16, 0),
            keys: filled_vec::<bool>(16, false),
            delay_timer: 0,
            sound_timer: 0,
        };
        proof {
            assert(r@.ram =~= initial_model().ram);
            assert(r@.screen =~= initial_model().screen);
            assert(r@.regs =~= initial_model().regs);
            assert(r@.stack =~= initial_model().stack);
            assert(r@.keys =~= initial_model().keys);
            assert(r@ =~= initial_model());
        }
        r
    }

    /// A fresh machine in the same canonical initial state.
    pub fn reset() -> (r: Self)
        ensures
            r@ == initial_model(),
            r@.wf(),
    {
        Self::new()
    }

    /// Read-only view of the display bitmap, row-major.
    pub fn get_display(&self) -> (r: &[bool])
        ensures
            r@ == self@.screen,
    {
        self.screen.as_slice()
    }

    /// The current value of general-purpose register `idx`.
    pub fn get_register(&self, idx: usize) -> (r: u8)
        requires
            self@.wf(),
            idx < 16,
        ensures
            r == self@.regs[idx as int],
    {
        self.v_registers[idx]
    }

    /// The current program counter.
    pub fn get_program_counter(&self) -> (r: u16)
        ensures
            r == self@.pc,
    {
        self.program_counter
    }

    /// The current index register.
    pub fn get_index_register(&self) -> (r: u16)
        ensures
            r == self@.i_reg,
    {
        self.i_register
    }

    /// The current delay timer.
    pub fn get_delay_timer(&self) -> (r: u8)
        ensures
            r == self@.delay,
    {
        self.delay_timer
    }

    /// The current sound timer.
    pub fn get_sound_timer(&self) -> (r: u8)
        ensures
            r == self@.sound,
    {
        self.sound_timer
    }

    /// The byte of emulated memory at `addr`.
    pub fn read_memory(&self, addr: usize) -> (r: u8)
        requires
            self@.wf(),
            addr < 4096,
        ensures
            r == self@.ram[addr as int],
    {
        self.ram[addr]
    }

    /// Sets the state of one keypad key.
    pub fn keypress(&mut self, idx: usize, pressed: bool)
        requires
            old(self)@.wf(),
            idx < 16,
        ensures
            final(self)@ == old(self)@.with_keys(old(self)@.keys.update(idx as int, pressed)),
            final(self)@.wf(),
    {
        self.keys[idx] = pressed;
    }

    /// Copies a program image into memory at the start address; an
    /// image that does not fit is rejected whole, with nothing written.
    pub fn load(&mut self, data: &[u8]) -> (r: Result<(), Chip8Error>)
        requires
            old(self)@.wf(),
        ensures
            final(self)@.wf(),
            data@.len() <= 4096 - 0x200 ==> r is Ok && final(self)@ == old(self)@.with_ram(
                loaded_ram(old(self)@.ram, data@),
            ),
            data@.len() > 4096 - 0x200 ==> r == Err::<(), Chip8Error>(Chip8Error::LoadOverflow)
                && final(self)@ == old(self)@,
    {
        if data.len() > 4096 - 0x200 {
            return Err(Chip8Error::LoadOverflow);
        }
        let mut i: usize = 0;
        while i < data.len()
            invariant
                old(self)@.wf(),
                i <= data@.len(),
                data@.len() <= 4096 - 0x200,
                self.ram@.len() == 4096,
                forall|j: int| 0x200 <= j < 0x200 + i ==> self.ram@[j] == data@[j - 0x200],
                forall|j: int|
                    0 <= j < 4096 && !(0x200 <= j < 0x200 + i) ==> self.ram@[j] == old(
                        self,
                    )@.ram[j],
                self.program_counter == old(self).program_counter,
                self.screen == old(self).screen,
                self.v_registers == old(self).v_registers,
                self.i_register == old(self).i_register,
                self.stack_pointer == old(self).stack_pointer,
                self.stack == old(self).stack,
                self.keys == old(self).keys,
                self.delay_timer == old(self).delay_timer,
                self.sound_timer == old(self).sound_timer,
            decreases data@.len() - i,
        {
            let b = data[i];
            self.ram[0x200 + i] = b;
            i += 1;
        }
        proof {
            assert(self.ram@ =~= loaded_ram(old(self)@.ram, data@));
        }
        Ok(())
    }

    /// Advances both countdown timers by one tick; the result says
    /// whether the sound timer just ran out, which is the host's cue
    /// to sound its alert.
    pub fn update_timers(&mut self) -> (alert: bool)
        ensures
            final(self)@ == old(self)@.with_timers(
                dec_timer(old(self)@.delay),
                dec_timer(old(self)@.sound),
            ),
            alert == (old(self)@.sound == 1),
    {
        if self.delay_timer > 0 {
            self.delay_timer -= 1;
        }
        let mut alert = false;
        if self.sound_timer > 0 {
            if self.sound_timer == 1 {
                alert = true;
            }
            self.sound_timer -= 1;
        }
        alert
    }

    /// Reads the two bytes at the program counter as one big-endian
    /// instruction word and advances the counter past them.
    fn fetch(&mut self) -> (r: Result<u16, Chip8Error>)
        requires
            old(self)@.wf(),
        ensures
            final(self)@.wf(),
            old(self)@.pc + 1 >= 4096 ==> r == Err::<u16, Chip8Error>(Chip8Error::MemoryOutOfRange)
                && final(self)@ == old(self)@,
            old(self)@.pc + 1 < 4096 ==> r == Ok::<u16, Chip8Error>(fetched_op(old(self)@))
                && final(self)@ == old(self)@.with_pc((old(self)@.pc + 2) as u16),
    {
        let pc = self.program_counter as usize;
        if pc + 1 >= 4096 {
            return Err(Chip8Error::MemoryOutOfRange);
        }
        let higher_byte = self.ram[pc] as u16;
        let lower_byte = self.ram[pc + 1] as u16;
        self.program_counter = self.program_counter + 2;
        Ok(higher_byte * 256 + lower_byte)
    }

    /// Pushes a return address; a full stack rejects it.
    fn push(&mut self, val: u16) -> (r: Result<(), Chip8Error>)
        requires
            old(self)@.wf(),
        ensures
            final(self)@.wf(),
            old(self)@.sp >= 16 ==> r == Err::<(), Chip8Error>(Chip8Error::StackOverflow)
                && final(self)@ == old(self)@,
            old(self)@.sp < 16 ==> r is Ok && final(self)@ == (MachineModel {
                stack: old(self)@.stack.update(old(self)@.sp as int, val),
                sp: (old(self)@.sp + 1) as u16,
                ..old(self)@
            }),
    {
        if self.stack_pointer >= 16 {
            return Err(Chip8Error::StackOverflow);
        }
        let sp = self.stack_pointer as usize;
        self.stack[sp] = val;
        self.stack_pointer = self.stack_pointer + 1;
        Ok(())
    }

    /// Pops the most recent return address; an empty stack rejects it.
    fn pop(&mut self) -> (r: Result<u16, Chip8Error>)
        requires
            old(self)@.wf(),
        ensures
            final(self)@.wf(),
            old(self)@.sp == 0 ==> r == Err::<u16, Chip8Error>(Chip8Error::StackUnderflow)
                && final(self)@ == old(self)@,
            old(self)@.sp > 0 ==> r == Ok::<u16, Chip8Error>(
                old(self)@.stack[old(self)@.sp - 1],
            ) && final(self)@ == (MachineModel {
                sp: (old(self)@.sp - 1) as u16,
                ..old(self)@
            }),
    {
        if self.stack_pointer == 0 {
            return Err(Chip8Error::StackUnderflow);
        }
        self.stack_pointer = self.stack_pointer - 1;
        Ok(self.stack[self.stack_pointer as usize])
    }

    /// Index of the lowest-numbered pressed key, if any key is down.
    fn first_pressed(&self) -> (r: Option<u8>)
        requires
            self@.wf(),
        ensures
            r == first_pressed_from(self@.keys, 0),
    {
        let mut i: usize = 0;
        while i < 16
            invariant
                self@.wf(),
                i <= 16,
                first_pressed_from(self@.keys, 0) == first_pressed_from(self@.keys, i as int),
            decreases 16 - i,
        {
            if self.keys[i] {
                return Some(i as u8);
            }
            i += 1;
        }
        None
    }

    /// Draws `k` sprite rows read from memory at the index register,
    /// anchored at the coordinates held in registers `x` and `y`; every
    /// lit sprite bit toggles its pixel, and the flag register records
    /// whether any toggle turned a pixel off.
    fn draw_sprite(&mut self, x: usize, y: usize, k: usize) -> (r: Result<(), Chip8Error>)
        requires
            old(self)@.wf(),
            x < 16,
            y < 16,
            k < 16,
        ensures
            final(self)@.wf(),
            k > 0 && old(self)@.i_reg + k > 4096 ==> r == Err::<(), Chip8Error>(
                Chip8Error::MemoryOutOfRange,
            ) && final(self)@ == old(self)@,
            !(k > 0 && old(self)@.i_reg + k > 4096) ==> r is Ok && final(self)@ == old(
                self,
            )@.with_screen(
                draw_screen(
                    old(self)@.screen,
                    old(self)@.ram,
                    old(self)@.i_reg,
                    old(self)@.regs[x as int],
                    old(self)@.regs[y as int],
                    k as int,
                ),
            ).with_reg(
                15,
                (if draw_collision(
                    old(self)@.screen,
                    old(self)@.ram,
                    old(self)@.i_reg,
                    old(self)@.regs[x as int],
                    old(self)@.regs[y as int],
                    k as int,
                ) {
                    1u8
                } else {
                    0u8
                }),
            ),
    {
        if k > 0 && (self.i_register as usize) + k > 4096 {
            return Err(Chip8Error::MemoryOutOfRange);
        }
        let xc = self.v_registers[x];
        let yc = self.v_registers[y];
        let mut flipped = false;
        let mut row: usize = 0;
        proof {
            assert(self.screen@ =~= Seq::new(
                2048,
                |p: int|
                    old(self)@.screen[p] != draw_flips(
                        old(self)@.ram,
                        old(self)@.i_reg,
                        xc,
                        yc,
                        0nat,
                        p,
                    ),
            ));
        }
        while row < k
            invariant
                old(self)@.wf(),
                row <= k,
                k < 16,
                x < 16,
                y < 16,
                k > 0 ==> old(self)@.i_reg + k <= 4096,
                xc == old(self)@.regs[x as int],
                yc == old(self)@.regs[y as int],
                self.program_counter == old(self)@.pc,
                self.ram@ == old(self)@.ram,
                self.v_registers@ == old(self)@.regs,
                self.i_register == old(self)@.i_reg,
                self.stack_pointer == old(self)@.sp,
                self.stack@ == old(self)@.stack,
                self.keys@ == old(self)@.keys,
                self.delay_timer == old(self)@.delay,
                self.sound_timer == old(self)@.sound,
                self.screen@.len() == 2048,
                self.screen@ == Seq::new(
                    2048,
                    |p: int|
                        old(self)@.screen[p] != draw_flips(
                            old(self)@.ram,
                            old(self)@.i_reg,
                            xc,
                            yc,
                            (8 * row) as nat,
                            p,
                        ),
                ),
                flipped == draw_collision_upto(
                    old(self)@.screen,
                    old(self)@.ram,
                    old(self)@.i_reg,
                    xc,
                    yc,
                    (8 * row) as nat,
                ),
            decreases k - row,
        {
            let pixels = self.ram[(self.i_register as usize) + row];
            let mut col: usize = 0;
            let mut mask: u8 = 0x80;
            while col < 8
                invariant
                    old(self)@.wf(),
                    row < k,
                    col <= 8,
                    k < 16,
                    x < 16,
                    y < 16,
                    k > 0 ==> old(self)@.i_reg + k <= 4096,
                    xc == old(self)@.regs[x as int],
                    yc == old(self)@.regs[y as int],
                    pixels == old(self)@.ram[old(self)@.i_reg + row],
                    col < 8 ==> mask == bit_mask(col as int),
                    self.program_counter == old(self)@.pc,
                    self.ram@ == old(self)@.ram,
                    self.v_registers@ == old(self)@.regs,
                    self.i_register == old(self)@.i_reg,
                    self.stack_pointer == old(self)@.sp,
                    self.stack@ == old(self)@.stack,
                    self.keys@ == old(self)@.keys,
                    self.delay_timer == old(self)@.delay,
                    self.sound_timer == old(self)@.sound,
                    self.screen@.len() == 2048,
                    self.screen@ == Seq::new(
                        2048,
                        |p: int|
                            old(self)@.screen[p] != draw_flips(
                                old(self)@.ram,
                                old(self)@.i_reg,
                                xc,
                                yc,
                                (8 * row + col) as nat,
                                p,
                            ),
                    ),
                    flipped == draw_collision_upto(
                        old(self)@.screen,
                        old(self)@.ram,
                        old(self)@.i_reg,
                        xc,
                        yc,
                        (8 * row + col) as nat,
                    ),
                decreases 8 - col,
            {
                let ghost n: int = 8 * (row as int) + (col as int);
                let ghost s_prev = self.screen@;
                let ghost f_prev = flipped;
                proof {
                    assert(n / 8 == row as int && n % 8 == col as int);
                }
                let is_set = (pixels / mask) % 2 == 1;
                proof {
                    assert(is_set == sprite_bit(pixels, col as int));
                }
                let ghost target = pixel_index(xc, yc, row as int, col as int);
                if is_set {
                    let px = ((xc as usize) + col) % 64;
                    let py = ((yc as usize) + row) % 32;
                    let idx = px + 64 * py;
                    proof {
                        assert(idx as int == target);
                        assert(idx < 2048);
                    }
                    if self.screen[idx] {
                        flipped = true;
                    }
                    let cur = self.screen[idx];
                    self.screen[idx] = !cur;
                }
                proof {
                    assert(forall|p: int|
                        #[trigger] draw_hits(old(self)@.ram, old(self)@.i_reg, xc, yc, n, p) == (
                        is_set && p == target));
                    assert forall|p: int| 0 <= p < 2048 implies #[trigger] draw_flips(
                        old(self)@.ram,
                        old(self)@.i_reg,
                        xc,
                        yc,
                        (n + 1) as nat,
                        p,
                    ) == (draw_flips(old(self)@.ram, old(self)@.i_reg, xc, yc, n as nat, p) != (
                    is_set && p == target)) by {
                        lemma_draw_flips_step(
                            old(self)@.ram,
                            old(self)@.i_reg,
                            xc,
                            yc,
                            n as nat,
                            p,
                        );
                    }
                    assert(self.screen@ =~= Seq::new(
                        2048,
                        |p: int|
                            old(self)@.screen[p] != draw_flips(
                                old(self)@.ram,
                                old(self)@.i_reg,
                                xc,
                                yc,
                                (n + 1) as nat,
                                p,
                            ),
                    ));
                    lemma_draw_collision_step(
                        old(self)@.screen,
                        old(self)@.ram,
                        old(self)@.i_reg,
                        xc,
                        yc,
                        n as nat,
                    );
                    assert(s_prev[target] == (old(self)@.screen[target] != draw_flips(
                        old(self)@.ram,
                        old(self)@.i_reg,
                        xc,
                        yc,
                        n as nat,
                        target,
                    )));
                    assert(flipped == draw_collision_upto(
                        old(self)@.screen,
                        old(self)@.ram,
                        old(self)@.i_reg,
                        xc,
                        yc,
                        (n + 1) as nat,
                    ));
                }
                mask = mask / 2;
                col += 1;
            }
            row += 1;
        }
        if flipped {
            self.v_registers[15] = 1;
        } else {
            self.v_registers[15] = 0;
        }
        proof {
            assert(self.screen@ =~= draw_screen(
                old(self)@.screen,
                old(self)@.ram,
                old(self)@.i_reg,
                xc,
                yc,
                k as int,
            ));
        }
        Ok(())
    }

    /// Stores registers `0 ..= x` into memory at the index register.
    fn store_regs(&mut self, x: usize) -> (r: Result<(), Chip8Error>)
        requires
            old(self)@.wf(),
            x < 16,
        ensures
            final(self)@.wf(),
            old(self)@.i_reg + x >= 4096 ==> r == Err::<(), Chip8Error>(
                Chip8Error::MemoryOutOfRange,
            ) && final(self)@ == old(self)@,
            old(self)@.i_reg + x < 4096 ==> r is Ok && final(self)@ == old(self)@.with_ram(
                stored_ram(old(self)@.ram, old(self)@.regs, old(self)@.i_reg, x as int),
            ),
    {
        let i = self.i_register as usize;
        if i + x >= 4096 {
            return Err(Chip8Error::MemoryOutOfRange);
        }
        let mut j: usize = 0;
        while j <= x
            invariant
                old(self)@.wf(),
                x < 16,
                j <= x + 1,
                i == old(self)@.i_reg,
                i + x < 4096,
                self.ram@.len() == 4096,
                forall|t: int| 0 <= t < 4096 && !(i <= t < i + j) ==> self.ram@[t] == old(
                    self,
                )@.ram[t],
                forall|t: int| i <= t < i + j ==> self.ram@[t] == old(self)@.regs[t - i],
                self.program_counter == old(self)@.pc,
                self.screen == old(self).screen,
                self.v_registers == old(self).v_registers,
                self.i_register == old(self)@.i_reg,
                self.stack_pointer == old(self)@.sp,
                self.stack == old(self).stack,
                self.keys == old(self).keys,
                self.delay_timer == old(self)@.delay,
                self.sound_timer == old(self)@.sound,
            decreases x + 1 - j,
        {
            let v = self.v_registers[j];
            self.ram[i + j] = v;
            j += 1;
        }
        proof {
            assert(self.ram@ =~= stored_ram(
                old(self)@.ram,
                old(self)@.regs,
                old(self)@.i_reg,
                x as int,
            ));
        }
        Ok(())
    }

    /// Loads registers `0 ..= x` from memory at the index register.
    fn load_regs(&mut self, x: usize) -> (r: Result<(), Chip8Error>)
        requires
            old(self)@.wf(),
            x < 16,
        ensures
            final(self)@.wf(),
            old(self)@.i_reg + x >= 4096 ==> r == Err::<(), Chip8Error>(
                Chip8Error::MemoryOutOfRange,
            ) && final(self)@ == old(self)@,
            old(self)@.i_reg + x < 4096 ==> r is Ok && final(self)@ == old(self)@.with_regs(
                loaded_regs(old(self)@.regs, old(self)@.ram, old(self)@.i_reg, x as int),
            ),
    {
        let i = self.i_register as usize;
        if i + x >= 4096 {
            return Err(Chip8Error::MemoryOutOfRange);
        }
        let mut j: usize = 0;
        while j <= x
            invariant
                old(self)@.wf(),
                x < 16,
                j <= x + 1,
                i == old(self)@.i_reg,
                i + x < 4096,
                self.v_registers@.len() == 16,
                forall|t: int| j <= t < 16 ==> self.v_registers@[t] == old(self)@.regs[t],
                forall|t: int| 0 <= t < j ==> self.v_registers@[t] == old(self)@.ram[i + t],
                self.program_counter == old(self)@.pc,
                self.ram == old(self).ram,
                self.screen == old(self).screen,
                self.i_register == old(self)@.i_reg,
                self.stack_pointer == old(self)@.sp,
                self.stack == old(self).stack,
                self.keys == old(self).keys,
                self.delay_timer == old(self)@.delay,
                self.sound_timer == old(self)@.sound,
            decreases x + 1 - j,
        {
            let v = self.ram[i + j];
            self.v_registers[j] = v;
            j += 1;
        }
        proof {
            assert(self.v_registers@ =~= loaded_regs(
                old(self)@.regs,
                old(self)@.ram,
                old(self)@.i_reg,
                x as int,
            ));
        }
        Ok(())
    }

    /// Writes the decimal digits of register `x` to memory at the index
    /// register: hundreds, tens, ones.
    fn store_bcd(&mut self, x: usize) -> (r: Result<(), Chip8Error>)
        requires
            old(self)@.wf(),
            x < 16,
        ensures
            final(self)@.wf(),
            old(self)@.i_reg + 2 >= 4096 ==> r == Err::<(), Chip8Error>(
                Chip8Error::MemoryOutOfRange,
            ) && final(self)@ == old(self)@,
            old(self)@.i_reg + 2 < 4096 ==> r is Ok && final(self)@ == old(self)@.with_ram(
                old(self)@.ram.update(
                    old(self)@.i_reg as int,
                    (old(self)@.regs[x as int] / 100) as u8,
                ).update(
                    old(self)@.i_reg + 1,
                    ((old(self)@.regs[x as int] / 10) % 10) as u8,
                ).update(old(self)@.i_reg + 2, (old(self)@.regs[x as int] % 10) as u8),
            ),
    {
        let i = self.i_register as usize;
        if i + 2 >= 4096 {
            return Err(Chip8Error::MemoryOutOfRange);
        }
        let v = self.v_registers[x];
        self.ram[i] = v / 100;
        self.ram[i + 1] = (v / 10) % 10;
        self.ram[i + 2] = v % 10;
        Ok(())
    }

    /// Carries out one decoded instruction; `rb` is the random byte
    /// this step may consume. A failing instruction changes nothing.
    #[verifier::rlimit(100)]
    fn execute(&mut self, op: u16, rb: u8) -> (r: Result<(), Chip8Error>)
        requires
            old(self)@.wf(),
            2 <= old(self)@.pc,
            old(self)@.pc + 2 <= 0xFFFF,
        ensures
            final(self)@.wf(),
            (match spec_execute(old(self)@, op, rb) {
                Ok(m2) => r is Ok && final(self)@ == m2,
                Err(e) => r == Err::<(), Chip8Error>(e) && final(self)@ == old(self)@,
            }),
    {
        let fam = op / 0x1000;
        let x = ((op / 0x100) % 0x10) as usize;
        let y = ((op / 0x10) % 0x10) as usize;
        let n = (op % 0x10) as usize;
        let nnn = op % 0x1000;
        let nn = (op % 0x100) as u8;
        proof {
            assert(fam == op_fam(op));
            assert(x == op_x(op) && y == op_y(op) && n == op_n(op));
            assert(nnn == op_nnn(op) && nn == op_nn(op));
            assert(x < 16 && y < 16 && n < 16);
        }
        if op == 0x0000 {
            Ok(())
        } else if op == 0x00E0 {
            self.screen = filled_vec::<bool>(2048, false);
            proof {
                assert(self.screen@ =~= blank_screen());
            }
            Ok(())
        } else if op == 0x00EE {
            match self.pop() {
                Ok(addr) => {
                    self.program_counter = addr;
                    Ok(())
                },
                Err(e) => Err(e),
            }
        } else if fam == 0x1 {
            self.program_counter = nnn;
            Ok(())
        } else if fam == 0x2 {
            let here = self.program_counter;
            match self.push(here) {
                Ok(()) => {
                    self.program_counter = nnn;
                    Ok(())
                },
                Err(e) => Err(e),
            }
        } else if fam == 0x3 {
            if self.v_registers[x] == nn {
                self.program_counter = self.program_counter + 2;
            }
            Ok(())
        } else if fam == 0x4 {
            if self.v_registers[x] != nn {
                self.program_counter = self.program_counter + 2;
            }
            Ok(())
        } else if fam == 0x5 && n == 0x0 {
            if self.v_registers[x] == self.v_registers[y] {
                self.program_counter = self.program_counter + 2;
            }
            Ok(())
        } else if fam == 0x6 {
            self.v_registers[x] = nn;
            Ok(())
        } else if fam == 0x7 {
            let sum = (self.v_registers[x] as u16) + (nn as u16);
            self.v_registers[x] = (sum % 256) as u8;
            Ok(())
        } else if fam == 0x8 && n == 0x0 {
            let v = self.v_registers[y];
            self.v_registers[x] = v;
            Ok(())
        } else if fam == 0x8 && n == 0x1 {
            let v = self.v_registers[x] | self.v_registers[y];
            self.v_registers[x] = v;
            Ok(())
        } else if fam == 0x8 && n == 0x2 {
            let v = self.v_registers[x] & self.v_registers[y];
            self.v_registers[x] = v;
            Ok(())
        } else if fam == 0x8 && n == 0x3 {
            let v = self.v_registers[x] ^ self.v_registers[y];
            self.v_registers[x] = v;
            Ok(())
        } else if fam == 0x8 && n == 0x4 {
            let a = self.v_registers[x];
            let b = self.v_registers[y];
            let sum = (a as u16) + (b as u16);
            self.v_registers[x] = (sum % 256) as u8;
            self.v_registers[15] = if sum > 255 {
                1
            } else {
                0
            };
            Ok(())
        } else if fam == 0x8 && n == 0x5 {
            let a = self.v_registers[x];
            let b = self.v_registers[y];
            let diff = ((a as u16) + 256 - (b as u16)) % 256;
            self.v_registers[x] = diff as u8;
            self.v_registers[15] = if a >= b {
                1
            } else {
                0
            };
            proof {
                assert(diff as u8 == wrap_sub8(a, b));
            }
            Ok(())
        } else if fam == 0x8 && n == 0x6 {
            let a = self.v_registers[x];
            self.v_registers[x] = a / 2;
            self.v_registers[15] = a % 2;
            Ok(())
        } else if fam == 0x8 && n == 0x7 {
            let a = self.v_registers[x];
            let b = self.v_registers[y];
            let diff = ((b as u16) + 256 - (a as u16)) % 256;
            self.v_registers[x] = diff as u8;
            self.v_registers[15] = if b >= a {
                1
            } else {
                0
            };
            proof {
                assert(diff as u8 == wrap_sub8(b, a));
            }
            Ok(())
        } else if fam == 0x8 && n == 0xE {
            let a = self.v_registers[x];
            let doubled = ((a as u16) * 2) % 256;
            self.v_registers[x] = doubled as u8;
            self.v_registers[15] = a / 128;
            Ok(())
        } else if fam == 0x9 && n == 0x0 {
            if self.v_registers[x] != self.v_registers[y] {
                self.program_counter = self.program_counter + 2;
            }
            Ok(())
        } else if fam == 0xA {
            self.i_register = nnn;
            Ok(())
        } else if fam == 0xB {
            self.program_counter = nnn + (self.v_registers[0] as u16);
            Ok(())
        } else if fam == 0xC {
            self.v_registers[x] = rb & nn;
            Ok(())
        } else if fam == 0xD {
            self.draw_sprite(x, y, n)
        } else if fam == 0xE && nn == 0x9E {
            let key = self.v_registers[x];
            if key >= 16 {
                Err(Chip8Error::KeyOutOfRange)
            } else {
                if self.keys[key as usize] {
                    self.program_counter = self.program_counter + 2;
                }
                Ok(())
            }
        } else if fam == 0xE && nn == 0xA1 {
            let key = self.v_registers[x];
            if key >= 16 {
                Err(Chip8Error::KeyOutOfRange)
            } else {
                if !self.keys[key as usize] {
                    self.program_counter = self.program_counter + 2;
                }
                Ok(())
            }
        } else if fam == 0xF && nn == 0x07 {
            let v = self.delay_timer;
            self.v_registers[x] = v;
            Ok(())
        } else if fam == 0xF && nn == 0x0A {
            match self.first_pressed() {
                Some(key) => {
                    self.v_registers[x] = key;
                },
                None => {
                    self.program_counter = self.program_counter - 2;
                },
            }
            Ok(())
        } else if fam == 0xF && nn == 0x15 {
            self.delay_timer = self.v_registers[x];
            Ok(())
        } else if fam == 0xF && nn == 0x18 {
            self.sound_timer = self.v_registers[x];
            Ok(())
        } else if fam == 0xF && nn == 0x1E {
            let sum = (self.i_register as u32) + (self.v_registers[x] as u32);
            self.i_register = (sum % 0x10000) as u16;
            Ok(())
        } else if fam == 0xF && nn == 0x29 {
            self.i_register = (self.v_registers[x] as u16) * 5;
            Ok(())
        } else if fam == 0xF && nn == 0x33 {
            self.store_bcd(x)
        } else if fam == 0xF && nn == 0x55 {
            self.store_regs(x)
        } else if fam == 0xF && nn == 0x65 {
            self.load_regs(x)
        } else {
            Err(Chip8Error::UnknownOpcode(op))
        }
    }

    /// One machine step with the random byte supplied by the caller:
    /// fetch, advance, execute. Deterministic, so a host or a test can
    /// drive the machine with a random source of its own choosing.
    pub fn tick_with_random(&mut self, rb: u8) -> (r: Result<(), Chip8Error>)
        requires
            old(self)@.wf(),
        ensures
            final(self)@.wf(),
            step_rel(old(self)@, final(self)@, rb, r),
    {
        match self.fetch() {
            Ok(op) => self.execute(op, rb),
            Err(e) => Err(e),
        }
    }

    /// One machine step, drawing the random byte from the thread's
    /// entropy source.
    pub fn tick(&mut self) -> (r: Result<(), Chip8Error>)
        requires
            old(self)@.wf(),
        ensures
            final(self)@.wf(),
            exists|rb: u8| step_rel(old(self)@, final(self)@, rb, r),
    {
        let rb = random_byte();
        let r = self.tick_with_random(rb);
        proof {
            assert(step_rel(old(self)@, self@, rb, r));
        }
        r
    }
}

/// Relies on rand::thread_rng and Rng::gen: a uniformly random byte
/// from the thread-local generator. Nothing is promised of its value.
#[verifier::external_body]
fn random_byte() -> u8 {
    rand::thread_rng().gen()
}

} // verus!
