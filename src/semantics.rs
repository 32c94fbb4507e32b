use vstd::prelude::*;
use crate::bits::msb_bit;
use crate::keypad::{hex_of_key, key_of_hex, Key};

verus! {

/// Bytes of addressable memory.
pub const MEMORY_SIZE: usize = 0x1000;
/// Where a program image is loaded.
pub const PROGRAM_START: usize = 0x200;
/// The largest program image that fits above `PROGRAM_START`.
pub const ROM_CAPACITY: usize = 0xE00;
pub const SCREEN_WIDTH: usize = 64;
pub const SCREEN_HEIGHT: usize = 32;
pub const SCREEN_PIXELS: usize = 2048;
/// The program counter never moves past this address: a jump, call return
/// or skip that would is refused as a fault.
pub const PC_LIMIT: usize = 0x1000;

/// Whether the instruction stream runs, or is frozen until a key is pressed
/// whose digit goes to the given register.
#[derive(Clone, Copy, Debug, PartialEq, Eq, Structural)]
pub enum WaitState {
    Running,
    WaitingForKey(u8),
}

/// What an instruction step can report. `UnrecognizedInstruction` and
/// `UnmappedKey` are anomalies after which execution goes on; the others
/// are faults of the program (stack misuse, an address outside memory)
/// and mean it cannot sensibly continue. In every case the machine state is
/// left as it was before the instruction.
#[derive(Clone, Copy, Debug, PartialEq, Eq, Structural)]
pub enum ExecError {
    UnrecognizedInstruction(u16),
    UnmappedKey(u8),
    StackUnderflow,
    StackOverflow,
    MemoryOutOfBounds(usize),
    PcOutOfRange(usize),
    IndexOverflow,
}

impl ExecError {
    pub open spec fn spec_is_fatal(&self) -> bool {
        !(*self is UnrecognizedInstruction || *self is UnmappedKey)
    }

    /// Whether the error is a fault after which the program cannot go on.
    #[verifier::when_used_as_spec(spec_is_fatal)]
    pub fn is_fatal(&self) -> (r: bool)
        ensures
            r == self.spec_is_fatal(),
    {
        match self {
            ExecError::UnrecognizedInstruction(_) => false,
            ExecError::UnmappedKey(_) => false,
            _ => true,
        }
    }
}

/// The mathematical state of the machine.
#[verifier::ext_equal]
pub struct Machine {
    pub mem: Seq<u8>,
    pub regs: Seq<u8>,
    pub pc: usize,
    pub sp: usize,
    pub stack: Seq<usize>,
    pub index: usize,
    pub screen: Seq<bool>,
    pub dt: u8,
    pub st: u8,
    pub wait: WaitState,
}

impl Machine {
    pub open spec fn wf(self) -> bool {
        &&& self.mem.len() == MEMORY_SIZE
        &&& self.regs.len() == 16
        &&& self.stack.len() == 16
        &&& self.screen.len() == SCREEN_PIXELS
        &&& self.sp < 16
        &&& self.pc <= PC_LIMIT
        &&& forall|i: int| 0 <= i < 16 ==> #[trigger] self.stack[i] <= PC_LIMIT
        &&& (self.wait matches WaitState::WaitingForKey(r) ==> r < 16)
    }
}

/// The glyphs of the hex digits 0 to F, five rows of four pixels each.
pub open spec fn font() -> Seq<u8> {
    seq![
        0xF0u8, 0x90, 0x90, 0x90, 0xF0,
        0x20, 0x60, 0x20, 0x20, 0x70,
        0xF0, 0x10, 0xF0, 0x80, 0xF0,
        0xF0, 0x10, 0xF0, 0x10, 0xF0,
        0x90, 0x90, 0xF0, 0x10, 0x10,
        0xF0, 0x80, 0xF0, 0x10, 0xF0,
        0xF0, 0x80, 0xF0, 0x90, 0xF0,
        0xF0, 0x10, 0x20, 0x40, 0x40,
        0xF0, 0x90, 0xF0, 0x90, 0xF0,
        0xF0, 0x90, 0xF0, 0x10, 0xF0,
        0xF0, 0x90, 0xF0, 0x90, 0x90,
        0xE0, 0x90, 0xE0, 0x90, 0xE0,
        0xF0, 0x80, 0x80, 0x80, 0xF0,
        0xE0, 0x90, 0x90, 0x90, 0xE0,
        0xF0, 0x80, 0xF0, 0x80, 0xF0,
        0xF0, 0x80, 0xF0, 0x80, 0x80,
    ]
}

/// Memory as it stands after construction: the font at address 0, the
/// program image (if any) at `PROGRAM_START`, zero elsewhere.
pub open spec fn initial_memory(rom: Option<Seq<u8>>) -> Seq<u8> {
    Seq::new(
        MEMORY_SIZE as nat,
        |a: int|
            if a < 80 {
                font()[a]
            } else if a >= PROGRAM_START && rom is Some {
                rom->0[a - PROGRAM_START]
            } else {
                0u8
            },
    )
}

pub open spec fn blank_screen() -> Seq<bool> {
    Seq::new(SCREEN_PIXELS as nat, |i: int| false)
}

/// The 12-bit address of the nibbles `n1 n2 n3`.
pub open spec fn addr_of(n1: u8, n2: u8, n3: u8) -> int {
    n1 * 256 + n2 * 16 + n3
}

/// The byte of the nibbles `k1 k2`.
pub open spec fn byte_of(k1: u8, k2: u8) -> int {
    k1 * 16 + k2
}

/// The color of a lit pixel in a rendered frame.
pub const PIXEL_ON: u32 = 0xFFFFFFFF;
/// The color of a dark pixel in a rendered frame.
pub const PIXEL_OFF: u32 = 0;

/// The frame that shows `screen`: one color per pixel, row by row.
pub open spec fn frame_of(screen: Seq<bool>) -> Seq<u32> {
    Seq::new(SCREEN_PIXELS as nat, |i: int| if screen[i] { PIXEL_ON } else { PIXEL_OFF })
}

/// The timers after one 60 Hz tick: each drops by one, but not below zero.
pub open spec fn tick_timers_spec(m: Machine) -> Machine {
    Machine {
        dt: if m.dt > 0 { (m.dt - 1) as u8 } else { 0 },
        st: if m.st > 0 { (m.st - 1) as u8 } else { 0 },
        ..m
    }
}


/// The four nibbles of an instruction word, most significant first.
pub open spec fn nibbles(w: u16) -> (u8, u8, u8, u8) {
    (
        ((w >> 12u16) & 0xFu16) as u8,
        ((w >> 8u16) & 0xFu16) as u8,
        ((w >> 4u16) & 0xFu16) as u8,
        (w & 0xFu16) as u8,
    )
}

pub open spec fn flag_byte(flag: bool) -> u8 {
    if flag { 1 } else { 0 }
}

pub open spec fn set_reg(m: Machine, x: int, v: u8) -> Machine {
    Machine { regs: m.regs.update(x, v), ..m }
}

/// `Vx` set to `v`, then `VF` set to the flag: the flag is written last, so
/// it wins where `x` is `F`.
pub open spec fn set_reg_flag(m: Machine, x: int, v: u8, flag: bool) -> Machine {
    Machine { regs: m.regs.update(x, v).update(15, flag_byte(flag)), ..m }
}

/// The program counter moved to `target`, which must not lie past `PC_LIMIT`.
pub open spec fn goto(m: Machine, target: int) -> Result<Machine, ExecError> {
    if target <= PC_LIMIT {
        Ok(Machine { pc: target as usize, ..m })
    } else {
        Err(ExecError::PcOutOfRange(target as usize))
    }
}

/// The next instruction skipped when `cond` holds.
pub open spec fn skip_if(m: Machine, cond: bool) -> Result<Machine, ExecError> {
    if cond {
        goto(m, m.pc + 2)
    } else {
        Ok(m)
    }
}

/// Whether `n` selects one of the `8xyn` register operations.
pub open spec fn is_alu_op(n: u8) -> bool {
    n <= 7 || n == 0xE
}

/// The value that `8xyn` leaves in `Vx`.
pub open spec fn alu_value(vx: u8, vy: u8, n: u8) -> u8 {
    if n == 0 {
        vy
    } else if n == 1 {
        vx | vy
    } else if n == 2 {
        vx & vy
    } else if n == 3 {
        vx ^ vy
    } else if n == 4 {
        ((vx + vy) % 256) as u8
    } else if n == 5 {
        ((vx + 256 - vy) % 256) as u8
    } else if n == 6 {
        vx / 2
    } else if n == 7 {
        ((vy + 256 - vx) % 256) as u8
    } else {
        ((vx * 2) % 256) as u8
    }
}

/// The flag that `8xyn` leaves in `VF`, for the operations that set one.
pub open spec fn alu_flag(vx: u8, vy: u8, n: u8) -> Option<bool> {
    if n == 4 {
        Some(vx + vy > 255)
    } else if n == 5 {
        Some(vx > vy)
    } else if n == 6 {
        Some(vx % 2 == 1)
    } else if n == 7 {
        Some(vy > vx)
    } else if n == 0xE {
        Some(vx >= 128)
    } else {
        None
    }
}

pub open spec fn alu_spec(m: Machine, x: u8, y: u8, n: u8, w: u16) -> Result<Machine, ExecError> {
    let vx = m.regs[x as int];
    let vy = m.regs[y as int];
    if !is_alu_op(n) {
        Err(ExecError::UnrecognizedInstruction(w))
    } else {
        match alu_flag(vx, vy, n) {
            Some(f) => Ok(set_reg_flag(m, x as int, alu_value(vx, vy, n), f)),
            None => Ok(set_reg(m, x as int, alu_value(vx, vy, n))),
        }
    }
}

/// The pixel that bit `b` of sprite row `r` lands on, with both coordinates
/// wrapping around the screen.
pub open spec fn sprite_target(vx: u8, vy: u8, r: int, b: int) -> int {
    ((vy + r) % 32) * 64 + (vx + b) % 64
}

/// The screen and the collision flag after XOR-drawing the first `r` rows of
/// the sprite at `index`, and then the first `b` bits of row `r`, in order.
pub open spec fn draw_rows(
    screen: Seq<bool>,
    mem: Seq<u8>,
    index: int,
    vx: u8,
    vy: u8,
    r: nat,
    b: nat,
) -> (Seq<bool>, bool)
    decreases r, b,
{
    if b == 0 {
        if r == 0 {
            (screen, false)
        } else {
            draw_rows(screen, mem, index, vx, vy, (r - 1) as nat, 8)
        }
    } else {
        let prev = draw_rows(screen, mem, index, vx, vy, r, (b - 1) as nat);
        let t = sprite_target(vx, vy, r as int, b - 1);
        let bit = msb_bit(mem[index + r], b - 1);
        (prev.0.update(t, prev.0[t] != bit), prev.1 || (prev.0[t] && bit))
    }
}

/// `Dxyn` with `vx`, `vy` the values of `Vx`, `Vy`.
pub open spec fn draw_spec(m: Machine, vx: u8, vy: u8, n: u8) -> Result<Machine, ExecError> {
    if m.index + n > MEMORY_SIZE {
        Err(ExecError::MemoryOutOfBounds(m.index))
    } else {
        let d = draw_rows(m.screen, m.mem, m.index as int, vx, vy, n as nat, 0);
        Ok(Machine { screen: d.0, regs: m.regs.update(15, flag_byte(d.1)), ..m })
    }
}

/// `Ex9E` (`down`) and `ExA1` (not `down`) with `vx` the value of `Vx`.
pub open spec fn key_skip_spec(m: Machine, vx: u8, held: Seq<Key>, down: bool) -> Result<
    Machine,
    ExecError,
> {
    match key_of_hex(vx) {
        Some(k) => skip_if(m, held.contains(k) == down),
        None => Err(ExecError::UnmappedKey(vx)),
    }
}

/// Memory after `Fx55`: `V0` to `Vx` stored from `index` on.
pub open spec fn stored_regs(mem: Seq<u8>, regs: Seq<u8>, index: int, x: int) -> Seq<u8> {
    Seq::new(
        mem.len(),
        |a: int|
            if index <= a <= index + x {
                regs[a - index]
            } else {
                mem[a]
            },
    )
}

/// Registers after `Fx65`: `V0` to `Vx` loaded from `index` on.
pub open spec fn loaded_regs(mem: Seq<u8>, regs: Seq<u8>, index: int, x: int) -> Seq<u8> {
    Seq::new(
        regs.len(),
        |i: int|
            if i <= x {
                mem[index + i]
            } else {
                regs[i]
            },
    )
}

/// The `Fxkk` instructions.
pub open spec fn misc_spec(m: Machine, x: u8, kk: u8, w: u16) -> Result<Machine, ExecError> {
    let vx = m.regs[x as int];
    if kk == 0x07 {
        Ok(set_reg(m, x as int, m.dt))
    } else if kk == 0x0A {
        Ok(Machine { wait: WaitState::WaitingForKey(x), ..m })
    } else if kk == 0x15 {
        Ok(Machine { dt: vx, ..m })
    } else if kk == 0x18 {
        Ok(Machine { st: vx, ..m })
    } else if kk == 0x1E {
        if m.index + vx > usize::MAX {
            Err(ExecError::IndexOverflow)
        } else {
            Ok(Machine { index: (m.index + vx) as usize, ..m })
        }
    } else if kk == 0x29 {
        Ok(Machine { index: (vx * 5) as usize, ..m })
    } else if kk == 0x33 {
        if m.index + 3 > MEMORY_SIZE {
            Err(ExecError::MemoryOutOfBounds(m.index))
        } else {
            Ok(
                Machine {
                    mem: m.mem.update(m.index as int, vx / 100).update(
                        m.index + 1,
                        (vx / 10) % 10,
                    ).update(m.index + 2, vx % 10),
                    ..m
                },
            )
        }
    } else if kk == 0x55 {
        if m.index + x + 1 > MEMORY_SIZE {
            Err(ExecError::MemoryOutOfBounds(m.index))
        } else {
            Ok(Machine { mem: stored_regs(m.mem, m.regs, m.index as int, x as int), ..m })
        }
    } else if kk == 0x65 {
        if m.index + x + 1 > MEMORY_SIZE {
            Err(ExecError::MemoryOutOfBounds(m.index))
        } else {
            Ok(Machine { regs: loaded_regs(m.mem, m.regs, m.index as int, x as int), ..m })
        }
    } else {
        Err(ExecError::UnrecognizedInstruction(w))
    }
}

/// What one instruction word does to the machine, with `held` the keys held
/// down and `rnd` the random byte that `Cxkk` draws.
pub open spec fn exec_spec(m: Machine, w: u16, held: Seq<Key>, rnd: u8) -> Result<
    Machine,
    ExecError,
> {
    let (a, x, y, n) = nibbles(w);
    let vx = m.regs[x as int];
    let vy = m.regs[y as int];
    let kk = byte_of(y, n) as u8;
    let addr = addr_of(x, y, n);
    if w == 0x00E0 {
        Ok(Machine { screen: blank_screen(), ..m })
    } else if w == 0x00EE {
        if m.sp == 0 {
            Err(ExecError::StackUnderflow)
        } else {
            Ok(Machine { pc: m.stack[m.sp as int], sp: (m.sp - 1) as usize, ..m })
        }
    } else if a == 1 {
        goto(m, addr)
    } else if a == 2 {
        if m.sp + 1 >= 16 {
            Err(ExecError::StackOverflow)
        } else {
            Ok(
                Machine {
                    sp: (m.sp + 1) as usize,
                    stack: m.stack.update(m.sp + 1, m.pc),
                    pc: addr as usize,
                    ..m
                },
            )
        }
    } else if a == 3 {
        skip_if(m, vx == kk)
    } else if a == 4 {
        skip_if(m, vx != kk)
    } else if a == 5 && n == 0 {
        skip_if(m, vx == vy)
    } else if a == 6 {
        Ok(set_reg(m, x as int, kk))
    } else if a == 7 {
        Ok(set_reg(m, x as int, ((vx + kk) % 256) as u8))
    } else if a == 8 {
        alu_spec(m, x, y, n, w)
    } else if a == 9 && n == 0 {
        skip_if(m, vx != vy)
    } else if a == 0xA {
        Ok(Machine { index: addr as usize, ..m })
    } else if a == 0xB {
        goto(m, addr + m.regs[0])
    } else if a == 0xC {
        Ok(set_reg(m, x as int, rnd & kk))
    } else if a == 0xD {
        draw_spec(m, vx, vy, n)
    } else if a == 0xE && kk == 0x9E {
        key_skip_spec(m, vx, held, true)
    } else if a == 0xE && kk == 0xA1 {
        key_skip_spec(m, vx, held, false)
    } else if a == 0xF {
        misc_spec(m, x, kk, w)
    } else {
        Err(ExecError::UnrecognizedInstruction(w))
    }
}

/// The machine `new` stands for `old` after a call that returned `r`, where
/// the model predicts `res`: on success the predicted machine, on failure
/// the same error and the machine untouched.
pub open spec fn applied(
    old: Machine,
    res: Result<Machine, ExecError>,
    new: Machine,
    r: Result<(), ExecError>,
) -> bool {
    match res {
        Ok(m) => r == Ok::<(), ExecError>(()) && new == m,
        Err(e) => r == Err::<(), ExecError>(e) && new == old,
    }
}

/// One instruction tick: while waiting for a key, a reported key press
/// resolves the wait and nothing is fetched; otherwise the word at the
/// program counter is fetched, the counter moves past it, and the word is
/// executed. The error, if any, comes with the machine as it then stands.
pub open spec fn step_spec(m: Machine, held: Seq<Key>, pressed: Option<Key>, rnd: u8) -> (
    Machine,
    Result<(), ExecError>,
) {
    match m.wait {
        WaitState::WaitingForKey(r) => match pressed {
            Some(k) => (
                Machine {
                    regs: m.regs.update(r as int, hex_of_key(k)),
                    wait: WaitState::Running,
                    ..m
                },
                Ok(()),
            ),
            None => (m, Ok(())),
        },
        WaitState::Running => {
            if m.pc + 2 > MEMORY_SIZE {
                (m, Err(ExecError::MemoryOutOfBounds(m.pc)))
            } else {
                let w = (m.mem[m.pc as int] * 256 + m.mem[m.pc + 1]) as u16;
                let fetched = Machine { pc: (m.pc + 2) as usize, ..m };
                match exec_spec(fetched, w, held, rnd) {
                    Ok(m2) => (m2, Ok(())),
                    Err(e) => (fetched, Err(e)),
                }
            }
        },
    }
}
} // verus!
