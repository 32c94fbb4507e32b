use vstd::prelude::*;
use crate::bits::{msb_bit, BitIteratoru8};
use crate::keypad::{get_hexcode_from_key, get_key_from_hexcode, is_held, Key};
use crate::semantics::{
    addr_of, alu_flag, alu_spec, alu_value, applied, blank_screen, byte_of, draw_rows, draw_spec,
    exec_spec, flag_byte, font, frame_of, goto, initial_memory, key_skip_spec, loaded_regs,
    misc_spec, nibbles, set_reg, set_reg_flag, skip_if, sprite_target, step_spec, stored_regs,
    tick_timers_spec, ExecError, Machine, WaitState, MEMORY_SIZE, PC_LIMIT, PIXEL_OFF, PIXEL_ON,
    PROGRAM_START, ROM_CAPACITY, SCREEN_HEIGHT, SCREEN_PIXELS, SCREEN_WIDTH,
};

verus! {

pub struct Chip8 {
    mem: [u8; 0x1000],
    registers: [u8; 16],
    program_counter: usize,
    stack_pointer: usize,
    stack: [usize; 16],
    index: usize,
    screen_memory: [bool; 2048],
    dt: u8,
    st: u8,
    waiting_for_key: WaitState,
}

impl View for Chip8 {
    type V = Machine;

    closed spec fn view(&self) -> Machine {
        Machine {
            mem: self.mem@,
            regs: self.registers@,
            pc: self.program_counter,
            sp: self.stack_pointer,
            stack: self.stack@,
            index: self.index,
            screen: self.screen_memory@,
            dt: self.dt,
            st: self.st,
            wait: self.waiting_for_key,
        }
    }
}

impl Chip8 {
    /// A fresh machine: font loaded, the image copied to `PROGRAM_START`,
    /// the program counter at `PROGRAM_START`, everything else zero.
    pub fn new(rom: Option<[u8; 0xE00]>) -> (r: Chip8)
        ensures
            r@.wf(),
            r@.mem == initial_memory(
                match rom {
                    Some(b) => Some(b@),
                    None => None,
                },
            ),
            r@.regs == Seq::new(16, |i: int| 0u8),
            r@.pc == PROGRAM_START,
            r@.sp == 0,
            r@.stack == Seq::new(16, |i: int| 0usize),
            r@.index == 0,
            r@.screen == blank_screen(),
            r@.dt == 0,
            r@.st == 0,
            r@.wait == WaitState::Running,
    {
        let hex_digits: [u8; 80] = [
            0xF0, 0x90, 0x90, 0x90, 0xF0,
            0x20, 0x60, 0x20, 0x20, 0x70,
            0xF0, 0x10, 0xF0, 0x80, 0xF0,
            0xF0, 0x10, 0xF0, 0x10, 0xF0,
            0x90, 0x90, 0xF0, 0x10, 0x10,
            0xF0, 0x80, 0xF0, 0x10, 0xF0,
            0xF0, 0x80, 0xF0, 0x90, 0xF0,
            0xF0, 0x10, 0x20, 0x40, 0x40,
            0xF0, 0x90, 0xF0, 0x90, 0xF0,
            0xF0, 0x90, 0xF0, 0x10, 0xF0,
            0xF0, 0x90, 0xF0, 0x90, 0x90,
            0xE0, 0x90, 0xE0, 0x90, 0xE0,
            0xF0, 0x80, 0x80, 0x80, 0xF0,
            0xE0, 0x90, 0x90, 0x90, 0xE0,
            0xF0, 0x80, 0xF0, 0x80, 0xF0,
            0xF0, 0x80, 0xF0, 0x80, 0x80,
        ];
        assert(hex_digits@ =~= font());
        let mut mem: [u8; 0x1000] = [0u8; 0x1000];
        let mut i: usize = 0;
        while i < 80
            invariant
                i <= 80,
                hex_digits@ == font(),
                forall|a: int| 0 <= a < i ==> mem@[a] == font()[a],
                forall|a: int| i <= a < MEMORY_SIZE ==> mem@[a] == 0u8,
            decreases 80 - i,
        {
            mem[i] = hex_digits[i];
            i = i + 1;
        }
        if let Some(urom) = rom {
            let mut j: usize = 0;
            while j < ROM_CAPACITY
                invariant
                    j <= ROM_CAPACITY,
                    forall|a: int| 0 <= a < 80 ==> mem@[a] == font()[a],
                    forall|a: int| 80 <= a < PROGRAM_START ==> mem@[a] == 0u8,
                    forall|a: int|
                        PROGRAM_START <= a < PROGRAM_START + j ==> mem@[a] == urom@[a - PROGRAM_START],
                    forall|a: int| PROGRAM_START + j <= a < MEMORY_SIZE ==> mem@[a] == 0u8,
                decreases ROM_CAPACITY - j,
            {
                mem[PROGRAM_START + j] = urom[j];
                j = j + 1;
            }
        }
        let r = Chip8 {
            mem,
            registers: [0u8; 16],
            program_counter: PROGRAM_START,
            stack_pointer: 0,
            stack: [0usize; 16],
            index: 0,
            screen_memory: [false; 2048],
            dt: 0,
            st: 0,
            waiting_for_key: WaitState::Running,
        };
        assert(r@.mem =~= initial_memory(
            match rom {
                Some(b) => Some(b@),
                None => None,
            },
        ));
        assert(r@.regs =~= Seq::new(16, |i: int| 0u8));
        assert(r@.stack =~= Seq::new(16, |i: int| 0usize));
        assert(r@.screen =~= blank_screen());
        r
    }
}


impl Chip8 {
    pub open spec fn wf(&self) -> bool {
        self@.wf()
    }

    pub fn get_addr(n1: u8, n2: u8, n3: u8) -> (r: usize)
        requires
            n1 < 16,
            n2 < 16,
            n3 < 16,
        ensures
            r == addr_of(n1, n2, n3),
    {
        assert(((n1 as usize) << 8usize) | ((n2 as usize) << 4usize) | (n3 as usize)
            == n1 * 256 + n2 * 16 + n3) by (bit_vector)
            requires
                n1 < 16,
                n2 < 16,
                n3 < 16,
        ;
        ((n1 as usize) << 8usize) | ((n2 as usize) << 4usize) | (n3 as usize)
    }

    pub fn get_kk(k1: u8, k2: u8) -> (r: u8)
        requires
            k1 < 16,
            k2 < 16,
        ensures
            r == byte_of(k1, k2),
    {
        assert((k1 << 4u8) | k2 == k1 * 16 + k2) by (bit_vector)
            requires
                k1 < 16,
                k2 < 16,
        ;
        (k1 << 4u8) | k2
    }

    /// The instruction word at the program counter, high byte first.
    pub fn fetch_instruction(&self) -> (r: u16)
        requires
            self@.pc + 1 < MEMORY_SIZE,
        ensures
            r == self@.mem[self@.pc as int] * 256 + self@.mem[self@.pc + 1],
    {
        let bit1 = self.mem[self.program_counter];
        let bit2 = self.mem[self.program_counter + 1];
        assert(((bit1 as u16) << 8u16) | (bit2 as u16) == bit1 * 256 + bit2) by (bit_vector);
        ((bit1 as u16) << 8u16) | (bit2 as u16)
    }

    /// Splits an instruction word into its four nibbles, most significant
    /// first.
    pub fn decode_instruction(w: u16) -> (r: (u8, u8, u8, u8))
        ensures
            r == nibbles(w),
            r.0 < 16,
            r.1 < 16,
            r.2 < 16,
            r.3 < 16,
    {
        assert(((w >> 12u16) & 0xFu16) < 16 && ((w >> 8u16) & 0xFu16) < 16 && ((w >> 4u16)
            & 0xFu16) < 16 && (w & 0xFu16) < 16) by (bit_vector);
        (
            ((w >> 12u16) & 0xFu16) as u8,
            ((w >> 8u16) & 0xFu16) as u8,
            ((w >> 4u16) & 0xFu16) as u8,
            (w & 0xFu16) as u8,
        )
    }

    /// The display rendered as one color per pixel, row by row.
    pub fn get_screen_buffer(&self) -> (r: [u32; 2048])
        ensures
            r@ == frame_of(self@.screen),
    {
        let mut buffer: [u32; 2048] = [0u32; 2048];
        let mut i: usize = 0;
        while i < SCREEN_PIXELS
            invariant
                i <= SCREEN_PIXELS,
                forall|j: int| 0 <= j < i ==> buffer@[j] == frame_of(self@.screen)[j],
            decreases SCREEN_PIXELS - i,
        {
            buffer[i] = if self.screen_memory[i] { PIXEL_ON } else { PIXEL_OFF };
            i = i + 1;
        }
        assert(buffer@ =~= frame_of(self@.screen));
        buffer
    }

    /// One 60 Hz tick of both timers, floored at zero.
    pub fn tick_timers(&mut self)
        requires
            old(self).wf(),
        ensures
            final(self).wf(),
            final(self)@ == tick_timers_spec(old(self)@),
    {
        self.dt = if self.dt > 0 { self.dt - 1 } else { 0 };
        self.st = if self.st > 0 { self.st - 1 } else { 0 };
    }

    pub fn register(&self, x: usize) -> (r: u8)
        requires
            x < 16,
        ensures
            r == self@.regs[x as int],
    {
        self.registers[x]
    }

    pub fn registers(&self) -> (r: [u8; 16])
        ensures
            r@ == self@.regs,
    {
        self.registers
    }

    pub fn memory(&self, addr: usize) -> (r: u8)
        requires
            addr < MEMORY_SIZE,
        ensures
            r == self@.mem[addr as int],
    {
        self.mem[addr]
    }

    /// The bytes of memory from `start`, `len` of them.
    pub fn memory_slice(&self, start: usize, len: usize) -> (r: Vec<u8>)
        requires
            start + len <= MEMORY_SIZE,
        ensures
            r@ == self@.mem.subrange(start as int, start + len),
    {
        let mut v: Vec<u8> = Vec::new();
        let mut i: usize = 0;
        while i < len
            invariant
                i <= len,
                start + len <= MEMORY_SIZE,
                v@ == self@.mem.subrange(start as int, start + i),
            decreases len - i,
        {
            v.push(self.mem[start + i]);
            i = i + 1;
            assert(v@ =~= self@.mem.subrange(start as int, start + i));
        }
        v
    }

    pub fn pixel(&self, x: usize, y: usize) -> (r: bool)
        requires
            x < SCREEN_WIDTH,
            y < SCREEN_HEIGHT,
        ensures
            r == self@.screen[y * 64 + x],
    {
        self.screen_memory[y * SCREEN_WIDTH + x]
    }

    pub fn program_counter(&self) -> (r: usize)
        ensures
            r == self@.pc,
    {
        self.program_counter
    }

    pub fn stack_pointer(&self) -> (r: usize)
        ensures
            r == self@.sp,
    {
        self.stack_pointer
    }

    pub fn stack(&self) -> (r: [usize; 16])
        ensures
            r@ == self@.stack,
    {
        self.stack
    }

    pub fn index(&self) -> (r: usize)
        ensures
            r == self@.index,
    {
        self.index
    }

    pub fn delay_timer(&self) -> (r: u8)
        ensures
            r == self@.dt,
    {
        self.dt
    }

    pub fn sound_timer(&self) -> (r: u8)
        ensures
            r == self@.st,
    {
        self.st
    }

    pub fn wait_state(&self) -> (r: WaitState)
        ensures
            r == self@.wait,
    {
        self.waiting_for_key
    }
}


/// Relies on rand::random: any value of the type may come back.
pub assume_specification<T>[ rand::random::<T> ]() -> (r: T)
    where
        rand::distributions::Standard: rand::distributions::Distribution<T>,
;

impl Chip8 {
    fn flag_value(flag: bool) -> (r: u8)
        ensures
            r == flag_byte(flag),
    {
        if flag {
            1
        } else {
            0
        }
    }

    /// Moves the program counter to `target` if it lies within `PC_LIMIT`.
    fn goto_checked(&mut self, target: usize) -> (r: Result<(), ExecError>)
        requires
            old(self).wf(),
        ensures
            applied(old(self)@, goto(old(self)@, target as int), final(self)@, r),
            final(self).wf(),
    {
        if target > PC_LIMIT {
            return Err(ExecError::PcOutOfRange(target));
        }
        self.program_counter = target;
        assert(self@ =~= goto(old(self)@, target as int)->Ok_0);
        Ok(())
    }

    fn skip_checked(&mut self, cond: bool) -> (r: Result<(), ExecError>)
        requires
            old(self).wf(),
        ensures
            applied(old(self)@, skip_if(old(self)@, cond), final(self)@, r),
            final(self).wf(),
    {
        if cond {
            self.goto_checked(self.program_counter + 2)
        } else {
            Ok(())
        }
    }

    /// The `8xyn` register operations.
    fn exec_alu(&mut self, x: u8, y: u8, n: u8, w: u16) -> (r: Result<(), ExecError>)
        requires
            old(self).wf(),
            x < 16,
            y < 16,
            n < 16,
        ensures
            applied(old(self)@, alu_spec(old(self)@, x, y, n, w), final(self)@, r),
            final(self).wf(),
    {
        let vx = self.registers[x as usize];
        let vy = self.registers[y as usize];
        if !(n <= 7 || n == 0xE) {
            return Err(ExecError::UnrecognizedInstruction(w));
        }
        let value: u8 = if n == 0 {
            vy
        } else if n == 1 {
            vx | vy
        } else if n == 2 {
            vx & vy
        } else if n == 3 {
            vx ^ vy
        } else if n == 4 {
            ((vx as u16 + vy as u16) % 256) as u8
        } else if n == 5 {
            ((vx as u16 + 256 - vy as u16) % 256) as u8
        } else if n == 6 {
            vx / 2
        } else if n == 7 {
            ((vy as u16 + 256 - vx as u16) % 256) as u8
        } else {
            ((vx as u16 * 2) % 256) as u8
        };
        let flag: Option<bool> = if n == 4 {
            Some(vx as u16 + vy as u16 > 255)
        } else if n == 5 {
            Some(vx > vy)
        } else if n == 6 {
            Some(vx % 2 == 1)
        } else if n == 7 {
            Some(vy > vx)
        } else if n == 0xE {
            Some(vx >= 128)
        } else {
            None
        };
        assert(value == alu_value(vx, vy, n));
        assert(flag == alu_flag(vx, vy, n));
        self.registers[x as usize] = value;
        if let Some(f) = flag {
            self.registers[15] = Chip8::flag_value(f);
            assert(self@ =~= set_reg_flag(old(self)@, x as int, value, f));
        } else {
            assert(self@ =~= set_reg(old(self)@, x as int, value));
        }
        Ok(())
    }

    /// `Dxyn`: XOR-draws the `n`-row sprite at `I` with its top left corner at
    /// (`vx`, `vy`); `VF` tells whether a lit pixel was switched off.
    fn draw(&mut self, vx: u8, vy: u8, n: u8) -> (r: Result<(), ExecError>)
        requires
            old(self).wf(),
            n < 16,
        ensures
            applied(old(self)@, draw_spec(old(self)@, vx, vy, n), final(self)@, r),
            final(self).wf(),
    {
        if self.index > MEMORY_SIZE - n as usize {
            return Err(ExecError::MemoryOutOfBounds(self.index));
        }
        let ghost m0 = self@;
        let mut flag: bool = false;
        let mut y_offset: usize = 0;
        while y_offset < n as usize
            invariant
                y_offset <= n,
                m0.index + n <= MEMORY_SIZE,
                m0.wf(),
                self@ == (Machine { screen: self@.screen, ..m0 }),
                (self@.screen, flag) == draw_rows(
                    m0.screen,
                    m0.mem,
                    m0.index as int,
                    vx,
                    vy,
                    y_offset as nat,
                    0,
                ),
            decreases n - y_offset,
        {
            let byte = self.mem[self.index + y_offset];
            let mut bits = BitIteratoru8::new(byte);
            let mut x_offset: usize = 0;
            loop
                invariant
                    x_offset <= 8,
                    y_offset < n,
                    m0.index + n <= MEMORY_SIZE,
                    m0.wf(),
                    bits.position() == x_offset,
                    bits.source() == byte,
                    byte == m0.mem[m0.index + y_offset],
                    self@ == (Machine { screen: self@.screen, ..m0 }),
                    (self@.screen, flag) == draw_rows(
                        m0.screen,
                        m0.mem,
                        m0.index as int,
                        vx,
                        vy,
                        y_offset as nat,
                        x_offset as nat,
                    ),
                ensures
                    (self@.screen, flag) == draw_rows(
                        m0.screen,
                        m0.mem,
                        m0.index as int,
                        vx,
                        vy,
                        y_offset as nat,
                        8,
                    ),
                    self@ == (Machine { screen: self@.screen, ..m0 }),
                decreases 8 - x_offset,
            {
                match bits.next() {
                    None => break,
                    Some(bit) => {
                        let px = (vx as usize + x_offset) % SCREEN_WIDTH;
                        let py = (vy as usize + y_offset) % SCREEN_HEIGHT;
                        assert(py * 64 + px < 2048) by (nonlinear_arith)
                            requires
                                px < 64,
                                py < 32,
                        ;
                        let t = py * SCREEN_WIDTH + px;
                        assert(t == sprite_target(vx, vy, y_offset as int, x_offset as int));
                        assert(bit == msb_bit(m0.mem[m0.index + y_offset], x_offset as int));
                        if self.screen_memory[t] && bit {
                            flag = true;
                        }
                        self.screen_memory[t] = self.screen_memory[t] != bit;
                        x_offset = x_offset + 1;
                        assert(self@ =~= Machine { screen: self@.screen, ..m0 });
                    },
                }
            }
            y_offset = y_offset + 1;
        }
        self.registers[15] = Chip8::flag_value(flag);
        assert(self@ =~= draw_spec(m0, vx, vy, n)->Ok_0);
        Ok(())
    }

    /// `Ex9E` (`down`) and `ExA1` (not `down`).
    fn key_skip(&mut self, x: u8, held: &[Key], down: bool) -> (r: Result<(), ExecError>)
        requires
            old(self).wf(),
            x < 16,
        ensures
            applied(
                old(self)@,
                key_skip_spec(old(self)@, old(self)@.regs[x as int], held@, down),
                final(self)@,
                r,
            ),
            final(self).wf(),
    {
        let vx = self.registers[x as usize];
        match get_key_from_hexcode(vx) {
            Some(key) => self.skip_checked(is_held(held, key) == down),
            None => Err(ExecError::UnmappedKey(vx)),
        }
    }

    /// The `Fxkk` instructions.
    fn exec_misc(&mut self, x: u8, kk: u8, w: u16) -> (r: Result<(), ExecError>)
        requires
            old(self).wf(),
            x < 16,
        ensures
            applied(old(self)@, misc_spec(old(self)@, x, kk, w), final(self)@, r),
            final(self).wf(),
    {
        let xi = x as usize;
        let vx = self.registers[xi];
        if kk == 0x07 {
            self.registers[xi] = self.dt;
            assert(self@ =~= set_reg(old(self)@, x as int, old(self)@.dt));
        } else if kk == 0x0A {
            self.waiting_for_key = WaitState::WaitingForKey(x);
            assert(self@ =~= misc_spec(old(self)@, x, kk, w)->Ok_0);
        } else if kk == 0x15 {
            self.dt = vx;
            assert(self@ =~= misc_spec(old(self)@, x, kk, w)->Ok_0);
        } else if kk == 0x18 {
            self.st = vx;
            assert(self@ =~= misc_spec(old(self)@, x, kk, w)->Ok_0);
        } else if kk == 0x1E {
            match self.index.checked_add(vx as usize) {
                Some(i) => {
                    self.index = i;
                    assert(self@ =~= misc_spec(old(self)@, x, kk, w)->Ok_0);
                },
                None => {
                    return Err(ExecError::IndexOverflow);
                },
            }
        } else if kk == 0x29 {
            self.index = vx as usize * 5;
            assert(self@ =~= misc_spec(old(self)@, x, kk, w)->Ok_0);
        } else if kk == 0x33 {
            if self.index > MEMORY_SIZE - 3 {
                return Err(ExecError::MemoryOutOfBounds(self.index));
            }
            let i = self.index;
            self.mem[i] = vx / 100;
            self.mem[i + 1] = (vx / 10) % 10;
            self.mem[i + 2] = vx % 10;
            assert(self@ =~= misc_spec(old(self)@, x, kk, w)->Ok_0);
        } else if kk == 0x55 {
            if self.index > MEMORY_SIZE - 1 - xi {
                return Err(ExecError::MemoryOutOfBounds(self.index));
            }
            let base = self.index;
            let mut i: usize = 0;
            while i <= xi
                invariant
                    xi < 16,
                    base == old(self)@.index,
                    base + xi + 1 <= MEMORY_SIZE,
                    i <= xi + 1,
                    self@ == (Machine { mem: self@.mem, ..old(self)@ }),
                    forall|a: int|
                        0 <= a < MEMORY_SIZE ==> #[trigger] self@.mem[a] == (if base <= a < base + i {
                            old(self)@.regs[a - base]
                        } else {
                            old(self)@.mem[a]
                        }),
                decreases xi + 1 - i,
            {
                self.mem[base + i] = self.registers[i];
                i = i + 1;
                assert(self@ =~= Machine { mem: self@.mem, ..old(self)@ });
            }
            assert(self@.mem =~= stored_regs(
                old(self)@.mem,
                old(self)@.regs,
                base as int,
                x as int,
            ));
            assert(self@ =~= misc_spec(old(self)@, x, kk, w)->Ok_0);
        } else if kk == 0x65 {
            if self.index > MEMORY_SIZE - 1 - xi {
                return Err(ExecError::MemoryOutOfBounds(self.index));
            }
            let base = self.index;
            let mut i: usize = 0;
            while i <= xi
                invariant
                    xi < 16,
                    base == old(self)@.index,
                    base + xi + 1 <= MEMORY_SIZE,
                    i <= xi + 1,
                    self@ == (Machine { regs: self@.regs, ..old(self)@ }),
                    forall|j: int|
                        0 <= j < 16 ==> #[trigger] self@.regs[j] == (if j < i {
                            old(self)@.mem[base + j]
                        } else {
                            old(self)@.regs[j]
                        }),
                decreases xi + 1 - i,
            {
                self.registers[i] = self.mem[base + i];
                i = i + 1;
                assert(self@ =~= Machine { regs: self@.regs, ..old(self)@ });
            }
            assert(self@.regs =~= loaded_regs(
                old(self)@.mem,
                old(self)@.regs,
                base as int,
                x as int,
            ));
            assert(self@ =~= misc_spec(old(self)@, x, kk, w)->Ok_0);
        } else {
            return Err(ExecError::UnrecognizedInstruction(w));
        }
        Ok(())
    }
}

impl Chip8 {
    /// Applies one instruction word, with `held` the keys held down and
    /// `random` the byte that `Cxkk` masks. The program counter is expected
    /// to have been moved past the word already.
    pub fn execute_with_random(&mut self, preinstruction: u16, held: &[Key], random: u8) -> (r:
        Result<(), ExecError>)
        requires
            old(self).wf(),
        ensures
            applied(
                old(self)@,
                exec_spec(old(self)@, preinstruction, held@, random),
                final(self)@,
                r,
            ),
            final(self).wf(),
    {
        let w = preinstruction;
        let (a, x, y, n) = Chip8::decode_instruction(w);
        let xi = x as usize;
        if w == 0x00E0 {
            self.screen_memory = [false; 2048];
            assert(self@ =~= exec_spec(old(self)@, w, held@, random)->Ok_0);
            Ok(())
        } else if w == 0x00EE {
            if self.stack_pointer == 0 {
                return Err(ExecError::StackUnderflow);
            }
            self.program_counter = self.stack[self.stack_pointer];
            self.stack_pointer = self.stack_pointer - 1;
            assert(self@ =~= exec_spec(old(self)@, w, held@, random)->Ok_0);
            Ok(())
        } else if a == 1 {
            let addr = Chip8::get_addr(x, y, n);
            self.goto_checked(addr)
        } else if a == 2 {
            if self.stack_pointer + 1 >= 16 {
                return Err(ExecError::StackOverflow);
            }
            let addr = Chip8::get_addr(x, y, n);
            self.stack_pointer = self.stack_pointer + 1;
            self.stack[self.stack_pointer] = self.program_counter;
            self.program_counter = addr;
            assert(self@ =~= exec_spec(old(self)@, w, held@, random)->Ok_0);
            Ok(())
        } else if a == 3 {
            let c = self.registers[xi] == Chip8::get_kk(y, n);
            self.skip_checked(c)
        } else if a == 4 {
            let c = self.registers[xi] != Chip8::get_kk(y, n);
            self.skip_checked(c)
        } else if a == 5 && n == 0 {
            let c = self.registers[xi] == self.registers[y as usize];
            self.skip_checked(c)
        } else if a == 6 {
            self.registers[xi] = Chip8::get_kk(y, n);
            assert(self@ =~= exec_spec(old(self)@, w, held@, random)->Ok_0);
            Ok(())
        } else if a == 7 {
            let kk = Chip8::get_kk(y, n);
            self.registers[xi] = ((self.registers[xi] as u16 + kk as u16) % 256) as u8;
            assert(self@ =~= exec_spec(old(self)@, w, held@, random)->Ok_0);
            Ok(())
        } else if a == 8 {
            self.exec_alu(x, y, n, w)
        } else if a == 9 && n == 0 {
            let c = self.registers[xi] != self.registers[y as usize];
            self.skip_checked(c)
        } else if a == 0xA {
            self.index = Chip8::get_addr(x, y, n);
            assert(self@ =~= exec_spec(old(self)@, w, held@, random)->Ok_0);
            Ok(())
        } else if a == 0xB {
            let target = Chip8::get_addr(x, y, n) + self.registers[0] as usize;
            self.goto_checked(target)
        } else if a == 0xC {
            self.registers[xi] = random & Chip8::get_kk(y, n);
            assert(self@ =~= exec_spec(old(self)@, w, held@, random)->Ok_0);
            Ok(())
        } else if a == 0xD {
            let vx = self.registers[xi];
            let vy = self.registers[y as usize];
            self.draw(vx, vy, n)
        } else if a == 0xE && y == 0x9 && n == 0xE {
            assert(byte_of(y, n) == 0x9E);
            self.key_skip(x, held, true)
        } else if a == 0xE && y == 0xA && n == 0x1 {
            assert(byte_of(y, n) == 0xA1);
            self.key_skip(x, held, false)
        } else if a == 0xE {
            assert(byte_of(y, n) != 0x9E && byte_of(y, n) != 0xA1);
            Err(ExecError::UnrecognizedInstruction(w))
        } else if a == 0xF {
            let kk = Chip8::get_kk(y, n);
            self.exec_misc(x, kk, w)
        } else {
            Err(ExecError::UnrecognizedInstruction(w))
        }
    }

    /// Applies one instruction word, drawing a random byte for `Cxkk`.
    pub fn execute_instruction(&mut self, preinstruction: u16, held: &[Key]) -> (r: Result<
        (),
        ExecError,
    >)
        requires
            old(self).wf(),
        ensures
            exists|random: u8|
                applied(
                    old(self)@,
                    #[trigger] exec_spec(old(self)@, preinstruction, held@, random),
                    final(self)@,
                    r,
                ),
            final(self).wf(),
    {
        let random: u8 = if (preinstruction >> 12u16) == 0xC {
            rand::random::<u8>()
        } else {
            0
        };
        self.execute_with_random(preinstruction, held, random)
    }

    /// One instruction tick with a given random byte (see `step_spec`).
    /// `pressed` is a key newly pressed since the last tick, if any.
    pub fn step_with_random(&mut self, held: &[Key], pressed: Option<Key>, random: u8) -> (r:
        Result<(), ExecError>)
        requires
            old(self).wf(),
        ensures
            (final(self)@, r) == step_spec(old(self)@, held@, pressed, random),
            final(self).wf(),
    {
        match self.waiting_for_key {
            WaitState::WaitingForKey(reg) => {
                if let Some(key) = pressed {
                    if let Some(hexcode) = get_hexcode_from_key(key) {
                        self.registers[reg as usize] = hexcode;
                        self.waiting_for_key = WaitState::Running;
                    }
                }
                assert(self@ =~= step_spec(old(self)@, held@, pressed, random).0);
                Ok(())
            },
            WaitState::Running => {
                if self.program_counter > MEMORY_SIZE - 2 {
                    return Err(ExecError::MemoryOutOfBounds(self.program_counter));
                }
                let instruction = self.fetch_instruction();
                self.program_counter = self.program_counter + 2;
                self.execute_with_random(instruction, held, random)
            },
        }
    }

    /// One instruction tick, drawing a random byte for `Cxkk`.
    pub fn step(&mut self, held: &[Key], pressed: Option<Key>) -> (r: Result<(), ExecError>)
        requires
            old(self).wf(),
        ensures
            exists|random: u8| #[trigger]
                step_spec(old(self)@, held@, pressed, random) == (final(self)@, r),
            final(self).wf(),
    {
        let random: u8 = rand::random::<u8>();
        self.step_with_random(held, pressed, random)
    }
}
} // verus!
