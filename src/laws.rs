use vstd::prelude::*;
use crate::bits::msb_bit;
use crate::keypad::{hex_of_key, Key};
use crate::semantics::{
    alu_spec, blank_screen, byte_of, draw_rows, draw_spec, exec_spec, sprite_target, flag_byte, misc_spec, nibbles, step_spec,
    tick_timers_spec, Machine, WaitState, MEMORY_SIZE,
};

verus! {

/// The instruction word with nibbles `a x y n`.
pub open spec fn op_xyn(a: u8, x: u8, y: u8, n: u8) -> u16 {
    (a * 4096 + x * 256 + y * 16 + n) as u16
}

/// The instruction word with nibbles `a x` followed by the byte `kk`.
pub open spec fn op_xkk(a: u8, x: u8, kk: u8) -> u16 {
    (a * 4096 + x * 256 + kk) as u16
}

proof fn lemma_word_nibbles(w: u16, a: u16, x: u16, y: u16, n: u16)
    requires
        a < 16,
        x < 16,
        y < 16,
        n < 16,
        w == a * 4096 + x * 256 + y * 16 + n,
    ensures
        nibbles(w) == (a as u8, x as u8, y as u8, n as u8),
{
    assert(((w >> 12u16) & 0xFu16) == a && ((w >> 8u16) & 0xFu16) == x && ((w >> 4u16) & 0xFu16)
        == y && (w & 0xFu16) == n) by (bit_vector)
        requires
            a < 16,
            x < 16,
            y < 16,
            n < 16,
            w == a * 4096 + x * 256 + y * 16 + n,
    ;
}

proof fn lemma_xkk_nibbles(a: u8, x: u8, kk: u8)
    requires
        a < 16,
        x < 16,
    ensures
        nibbles(op_xkk(a, x, kk)) == (a, x, kk / 16, kk % 16),
        byte_of(kk / 16, kk % 16) == kk,
        op_xkk(a, x, kk) == a * 4096 + x * 256 + kk,
{
    lemma_word_nibbles(
        op_xkk(a, x, kk),
        a as u16,
        x as u16,
        (kk / 16) as u16,
        (kk % 16) as u16,
    );
}

proof fn lemma_xyn_nibbles(a: u8, x: u8, y: u8, n: u8)
    requires
        a < 16,
        x < 16,
        y < 16,
        n < 16,
    ensures
        nibbles(op_xyn(a, x, y, n)) == (a, x, y, n),
        op_xyn(a, x, y, n) == a * 4096 + x * 256 + y * 16 + n,
{
    lemma_word_nibbles(op_xyn(a, x, y, n), a as u16, x as u16, y as u16, n as u16);
}

proof fn lemma_alu_word(m: Machine, x: u8, y: u8, n: u8, held: Seq<Key>, rnd: u8)
    requires
        x < 16,
        y < 16,
        n < 16,
    ensures
        exec_spec(m, op_xyn(8, x, y, n), held, rnd) == alu_spec(m, x, y, n, op_xyn(8, x, y, n)),
{
    lemma_xyn_nibbles(8, x, y, n);
}

proof fn lemma_misc_word(m: Machine, x: u8, kk: u8, held: Seq<Key>, rnd: u8)
    requires
        x < 16,
    ensures
        exec_spec(m, op_xkk(0xF, x, kk), held, rnd) == misc_spec(m, x, kk, op_xkk(0xF, x, kk)),
{
    lemma_xkk_nibbles(0xF, x, kk);
}

/// Loading `kk` into `Vx` (`6xkk`) and then adding `kk2` to it (`7xkk2`)
/// leaves `(kk + kk2) mod 256` in `Vx`.
pub proof fn law_load_then_add(m: Machine, x: u8, kk: u8, kk2: u8, held: Seq<Key>, rnd: u8)
    requires
        m.wf(),
        x < 16,
    ensures
        exec_spec(m, op_xkk(6, x, kk), held, rnd) is Ok,
        exec_spec(exec_spec(m, op_xkk(6, x, kk), held, rnd)->Ok_0, op_xkk(7, x, kk2), held, rnd) is Ok,
        exec_spec(
            exec_spec(m, op_xkk(6, x, kk), held, rnd)->Ok_0,
            op_xkk(7, x, kk2),
            held,
            rnd,
        )->Ok_0.regs[x as int] == (kk + kk2) % 256,
{
    lemma_xkk_nibbles(6, x, kk);
    lemma_xkk_nibbles(7, x, kk2);
    let m1 = exec_spec(m, op_xkk(6, x, kk), held, rnd)->Ok_0;
    assert(m1.regs[x as int] == kk);
}

/// `8xy4` adds `Vy` to `Vx` modulo 256 and sets `VF` exactly when the true
/// sum exceeds 255; the flag is written last, so it is what `VF` holds even
/// where `x` is `F`.
pub proof fn law_add_carry(m: Machine, x: u8, y: u8, held: Seq<Key>, rnd: u8)
    requires
        m.wf(),
        x < 16,
        y < 16,
    ensures
        exec_spec(m, op_xyn(8, x, y, 4), held, rnd) is Ok,
        exec_spec(m, op_xyn(8, x, y, 4), held, rnd)->Ok_0.regs[15] == flag_byte(
            m.regs[x as int] + m.regs[y as int] > 255,
        ),
        x != 15 ==> exec_spec(m, op_xyn(8, x, y, 4), held, rnd)->Ok_0.regs[x as int] == (
        m.regs[x as int] + m.regs[y as int]) % 256,
{
    lemma_xyn_nibbles(8, x, y, 4);
}

/// `8xy4` followed by `8xy5` (for distinct `x`, `y` other than `F`) gives
/// `Vx` back, as wrapping subtraction undoes wrapping addition; the flag
/// does not come back: `VF` ends up 1 exactly when the addition did not
/// overflow and the starting `Vx` was not zero.
pub proof fn law_add_then_sub(m: Machine, x: u8, y: u8, held: Seq<Key>, rnd: u8)
    requires
        m.wf(),
        x < 15,
        y < 15,
        x != y,
    ensures
        ({
            let m1 = exec_spec(m, op_xyn(8, x, y, 4), held, rnd)->Ok_0;
            let r2 = exec_spec(m1, op_xyn(8, x, y, 5), held, rnd);
            &&& r2 is Ok
            &&& r2->Ok_0.regs[x as int] == m.regs[x as int]
            &&& r2->Ok_0.regs[15] == flag_byte(
                m.regs[x as int] + m.regs[y as int] <= 255 && m.regs[x as int] > 0,
            )
        }),
{
    lemma_alu_word(m, x, y, 4, held, rnd);
    let m1 = exec_spec(m, op_xyn(8, x, y, 4), held, rnd)->Ok_0;
    lemma_alu_word(m1, x, y, 5, held, rnd);
    let vx = m.regs[x as int];
    let vy = m.regs[y as int];
    assert(m1.regs[y as int] == vy);
    assert(m1.regs[x as int] == (vx + vy) % 256);
    let s = m1.regs[x as int];
    if vx + vy > 255 {
        assert(s == vx + vy - 256);
        assert(!(s > vy));
    } else {
        assert(s == vx + vy);
    }
    assert((s + 256 - vy) % 256 == vx);
}

/// `00E0` leaves the screen all dark whatever was drawn before, which is the
/// screen a new machine starts with.
pub proof fn law_clear_screen(m: Machine, held: Seq<Key>, rnd: u8)
    requires
        m.wf(),
    ensures
        exec_spec(m, 0x00E0, held, rnd) == Ok::<Machine, crate::semantics::ExecError>(
            Machine { screen: blank_screen(), ..m },
        ),
        forall|i: int| 0 <= i < blank_screen().len() ==> !#[trigger] blank_screen()[i],
{
}

/// `Fx55` followed by `Fx65` with the same `x` and `I` gives back every
/// register as it was, wherever `I` leaves room for `x + 1` bytes.
pub proof fn law_store_then_load(m: Machine, x: u8, held: Seq<Key>, rnd: u8)
    requires
        m.wf(),
        x < 16,
        m.index + x + 1 <= MEMORY_SIZE,
    ensures
        exec_spec(m, op_xkk(0xF, x, 0x55), held, rnd) is Ok,
        exec_spec(exec_spec(m, op_xkk(0xF, x, 0x55), held, rnd)->Ok_0, op_xkk(0xF, x, 0x65), held, rnd)
            is Ok,
        exec_spec(
            exec_spec(m, op_xkk(0xF, x, 0x55), held, rnd)->Ok_0,
            op_xkk(0xF, x, 0x65),
            held,
            rnd,
        )->Ok_0.regs == m.regs,
{
    lemma_xkk_nibbles(0xF, x, 0x55);
    lemma_xkk_nibbles(0xF, x, 0x65);
    let m1 = exec_spec(m, op_xkk(0xF, x, 0x55), held, rnd)->Ok_0;
    let m2 = exec_spec(m1, op_xkk(0xF, x, 0x65), held, rnd)->Ok_0;
    assert(m1.index == m.index);
    assert(m2.regs =~= m.regs);
}

/// A timer tick takes each timer down by one, and never below zero.
pub proof fn law_timers_floor(m: Machine)
    ensures
        m.dt > 0 ==> tick_timers_spec(m).dt == m.dt - 1,
        m.dt == 0 ==> tick_timers_spec(m).dt == 0,
        m.st > 0 ==> tick_timers_spec(m).st == m.st - 1,
        m.st == 0 ==> tick_timers_spec(m).st == 0,
        tick_timers_spec(tick_timers_spec(m)).dt == (if m.dt >= 2 { m.dt - 2 } else { 0 }),
{
}

/// `Fx0A` enters the wait for a key to go to `Vx` and changes nothing else.
/// While waiting, an instruction tick without a key press changes nothing
/// at all (the program counter stays); one with a key press puts the key's
/// digit in `Vx` and resumes, still without fetching.
pub proof fn law_wait_for_key(m: Machine, x: u8, held: Seq<Key>, rnd: u8, key: Key)
    requires
        m.wf(),
        x < 16,
    ensures
        exec_spec(m, op_xkk(0xF, x, 0x0A), held, rnd) == Ok::<Machine, crate::semantics::ExecError>(
            Machine { wait: WaitState::WaitingForKey(x), ..m },
        ),
        ({
            let w = Machine { wait: WaitState::WaitingForKey(x), ..m };
            &&& step_spec(w, held, None, rnd) == (w, Ok::<(), crate::semantics::ExecError>(()))
            &&& step_spec(w, held, Some(key), rnd) == (
                Machine {
                    regs: m.regs.update(x as int, hex_of_key(key)),
                    wait: WaitState::Running,
                    ..m
                },
                Ok::<(), crate::semantics::ExecError>(()),
            )
        }),
{
    lemma_misc_word(m, x, 0x0A, held, rnd);
    let w = Machine { wait: WaitState::WaitingForKey(x), ..m };
    assert(step_spec(w, held, Some(key), rnd).0 =~= Machine {
        regs: m.regs.update(x as int, hex_of_key(key)),
        wait: WaitState::Running,
        ..m
    });
}


/// The sprite row whose bits land on screen row `p / 64` when the sprite's
/// top is at `vy`.
pub open spec fn sprite_row_of(vy: u8, p: int) -> int {
    (p / 64 + 256 - vy) % 32
}

/// The sprite column whose bits land on screen column `p % 64` when the
/// sprite's left edge is at `vx`.
pub open spec fn sprite_col_of(vx: u8, p: int) -> int {
    (p % 64 + 256 - vx) % 64
}

/// Whether drawing the first `r` rows of the sprite, and then the first `b`
/// bits of row `r`, puts a set bit on pixel `p`.
pub open spec fn sprite_hits(
    mem: Seq<u8>,
    index: int,
    vx: u8,
    vy: u8,
    r: nat,
    b: nat,
    p: int,
) -> bool {
    let rr = sprite_row_of(vy, p);
    let cc = sprite_col_of(vx, p);
    &&& cc < 8
    &&& (rr < r || (rr == r && cc < b))
    &&& msb_bit(mem[index + rr], cc)
}

proof fn lemma_target_inverse_bv(vx: u32, vy: u32, r: u32, b: u32, p: u32)
    by (bit_vector)
    requires
        vx < 256,
        vy < 256,
        r < 32,
        b < 64,
        p < 2048,
    ensures
        ((vy + r) % 32) * 64 + (vx + b) % 64 < 2048,
        (((vy + r) % 32) * 64 + (vx + b) % 64 == p) == (r == (p / 64 + 256 - vy) % 32 && b == (p
            % 64 + 256 - vx) % 64),
{
}

/// Bit `b` of sprite row `r` lands on pixel `p` exactly when `p`'s sprite
/// row and column are `r` and `b`.
proof fn lemma_target_inverse(vx: u8, vy: u8, r: int, b: int, p: int)
    requires
        0 <= r < 32,
        0 <= b < 64,
        0 <= p < 2048,
    ensures
        0 <= sprite_target(vx, vy, r, b) < 2048,
        (sprite_target(vx, vy, r, b) == p) == (r == sprite_row_of(vy, p) && b == sprite_col_of(
            vx,
            p,
        )),
        0 <= sprite_row_of(vy, p) < 32,
        0 <= sprite_col_of(vx, p) < 64,
{
    lemma_target_inverse_bv(vx as u32, vy as u32, r as u32, b as u32, p as u32);
}

/// The screen after a partial draw is the old screen XOR the pixels that
/// the drawn bits hit, and the collision flag tells whether one of those
/// pixels was lit before.
proof fn lemma_draw_closed(
    s: Seq<bool>,
    mem: Seq<u8>,
    index: int,
    vx: u8,
    vy: u8,
    r: nat,
    b: nat,
)
    requires
        s.len() == 2048,
        r < 16,
        b <= 8,
    ensures
        draw_rows(s, mem, index, vx, vy, r, b).0.len() == 2048,
        forall|p: int|
            0 <= p < 2048 ==> #[trigger] draw_rows(s, mem, index, vx, vy, r, b).0[p] == (s[p]
                != sprite_hits(mem, index, vx, vy, r, b, p)),
        draw_rows(s, mem, index, vx, vy, r, b).1 == exists|p: int|
            0 <= p < 2048 && #[trigger] sprite_hits(mem, index, vx, vy, r, b, p) && s[p],
    decreases r, b,
{
    if b == 0 {
        if r == 0 {
            assert forall|p: int| 0 <= p < 2048 implies !#[trigger] sprite_hits(
                mem,
                index,
                vx,
                vy,
                r,
                b,
                p,
            ) by {
                lemma_target_inverse(vx, vy, 0, 0, p);
            }
        } else {
            lemma_draw_closed(s, mem, index, vx, vy, (r - 1) as nat, 8);
            assert forall|p: int| 0 <= p < 2048 implies #[trigger] sprite_hits(
                mem,
                index,
                vx,
                vy,
                r,
                0,
                p,
            ) == sprite_hits(mem, index, vx, vy, (r - 1) as nat, 8, p) by {
                lemma_target_inverse(vx, vy, 0, 0, p);
            }
            let rm = (r - 1) as nat;
            if draw_rows(s, mem, index, vx, vy, rm, 8).1 {
                let q = choose|q: int|
                    0 <= q < 2048 && #[trigger] sprite_hits(mem, index, vx, vy, rm, 8, q) && s[q];
                assert(sprite_hits(mem, index, vx, vy, r, 0, q));
            } else {
                assert forall|q: int| 0 <= q < 2048 && #[trigger] sprite_hits(
                    mem,
                    index,
                    vx,
                    vy,
                    r,
                    0,
                    q,
                ) implies !s[q] by {
                    assert(sprite_hits(mem, index, vx, vy, rm, 8, q));
                }
            }
        }
    } else {
        let bb = (b - 1) as nat;
        lemma_draw_closed(s, mem, index, vx, vy, r, bb);
        let prev = draw_rows(s, mem, index, vx, vy, r, bb);
        let t = sprite_target(vx, vy, r as int, bb as int);
        let bit = msb_bit(mem[index + r], bb as int);
        lemma_target_inverse(vx, vy, r as int, bb as int, t);
        assert(!sprite_hits(mem, index, vx, vy, r, bb, t));
        assert(sprite_hits(mem, index, vx, vy, r, b, t) == bit);
        assert forall|p: int| 0 <= p < 2048 && p != t implies #[trigger] sprite_hits(
            mem,
            index,
            vx,
            vy,
            r,
            b,
            p,
        ) == sprite_hits(mem, index, vx, vy, r, bb, p) by {
            lemma_target_inverse(vx, vy, r as int, bb as int, p);
        }
        let cur = draw_rows(s, mem, index, vx, vy, r, b);
        assert(cur.0 == prev.0.update(t, prev.0[t] != bit));
        assert forall|p: int| 0 <= p < 2048 implies #[trigger] cur.0[p] == (s[p] != sprite_hits(
            mem,
            index,
            vx,
            vy,
            r,
            b,
            p,
        )) by {
            if p != t {
                assert(cur.0[p] == prev.0[p]);
            }
        }
        assert(cur.1 == (prev.1 || (s[t] && bit)));
        if cur.1 {
            if prev.1 {
                let q = choose|q: int|
                    0 <= q < 2048 && #[trigger] sprite_hits(mem, index, vx, vy, r, bb, q) && s[q];
                if q == t {
                    assert(false);
                }
                assert(sprite_hits(mem, index, vx, vy, r, b, q));
            } else {
                assert(sprite_hits(mem, index, vx, vy, r, b, t) && s[t]);
            }
        } else {
            assert forall|q: int| 0 <= q < 2048 && #[trigger] sprite_hits(
                mem,
                index,
                vx,
                vy,
                r,
                b,
                q,
            ) implies !s[q] by {
                if q != t {
                    assert(sprite_hits(mem, index, vx, vy, r, bb, q));
                }
            }
        }
    }
}

/// Drawing the same sprite twice at the same place gives the screen back as
/// it was: every pixel the sprite touched is toggled twice. The second draw
/// reports a collision exactly when some pixel the sprite lights was dark
/// before the first, so on a dark screen any sprite with a set bit collides
/// the second time. `x` and `y` are not `F`, whose value the first draw's
/// flag would overwrite.
pub proof fn law_draw_twice(m: Machine, x: u8, y: u8, n: u8, held: Seq<Key>, rnd: u8)
    requires
        m.wf(),
        x < 15,
        y < 15,
        n < 16,
        m.index + n <= MEMORY_SIZE,
    ensures
        ({
            let w = op_xyn(0xD, x, y, n);
            let r1 = exec_spec(m, w, held, rnd);
            let r2 = exec_spec(r1->Ok_0, w, held, rnd);
            &&& r1 is Ok
            &&& r2 is Ok
            &&& r2->Ok_0.screen == m.screen
            &&& r2->Ok_0.regs[15] == flag_byte(
                exists|p: int|
                    0 <= p < 2048 && #[trigger] sprite_hits(
                        m.mem,
                        m.index as int,
                        m.regs[x as int],
                        m.regs[y as int],
                        n as nat,
                        0,
                        p,
                    ) && !m.screen[p],
            )
        }),
{
    lemma_xyn_nibbles(0xD, x, y, n);
    let w = op_xyn(0xD, x, y, n);
    let vx = m.regs[x as int];
    let vy = m.regs[y as int];
    let m1 = exec_spec(m, w, held, rnd)->Ok_0;
    assert(m1 == draw_spec(m, vx, vy, n)->Ok_0);
    assert(m1.regs[x as int] == vx && m1.regs[y as int] == vy);
    assert(m1.mem == m.mem && m1.index == m.index);
    let m2 = exec_spec(m1, w, held, rnd)->Ok_0;
    assert(m2 == draw_spec(m1, vx, vy, n)->Ok_0);
    lemma_draw_closed(m.screen, m.mem, m.index as int, vx, vy, n as nat, 0);
    lemma_draw_closed(m1.screen, m.mem, m.index as int, vx, vy, n as nat, 0);
    assert(m2.screen =~= m.screen);
    let d2 = draw_rows(m1.screen, m.mem, m.index as int, vx, vy, n as nat, 0);
    assert forall|p: int| 0 <= p < 2048 implies (#[trigger] sprite_hits(
        m.mem,
        m.index as int,
        vx,
        vy,
        n as nat,
        0,
        p,
    ) && m1.screen[p]) == (sprite_hits(m.mem, m.index as int, vx, vy, n as nat, 0, p)
        && !m.screen[p]) by {}
}
} // verus!
