//! The engine's laws: properties that relate several operations, stated over
//! the same spec functions the operations' own contracts use, and proved
//! here once and for all.
use vstd::prelude::*;

use crate::dispatch::{advance, fetch16, step, with_error};
use crate::machine::{ErrorV, MachineV, MAX_ROM_SIZE, MEMORY_SIZE, PROGRAM_START};
use crate::sched::load_game_spec;

verus! {

/// A ROM that fits is stored verbatim: after a load of `rom` the memory
/// holds `rom` at `PROGRAM_START`, every other byte is untouched, the
/// metadata records the load, and no error arises from it.
pub proof fn lemma_load_rom_stores_bytes(
    s: MachineV,
    path: Seq<char>,
    name: Seq<char>,
    rom: Seq<u8>,
)
    requires
        s.wf(),
        rom.len() <= MAX_ROM_SIZE,
    ensures
        load_game_spec(s, path, name, Ok(rom)).memory.subrange(
            PROGRAM_START as int,
            PROGRAM_START + rom.len(),
        ) == rom,
        forall|a: int|
            0 <= a < MEMORY_SIZE && !(PROGRAM_START <= a < PROGRAM_START + rom.len())
                ==> load_game_spec(s, path, name, Ok(rom)).memory[a] == s.memory[a],
        load_game_spec(s, path, name, Ok(rom)).error == s.error,
        load_game_spec(s, path, name, Ok(rom)).rom_name == Some(name),
        load_game_spec(s, path, name, Ok(rom)).rom_size == Some(rom.len() as usize),
{
    assert(load_game_spec(s, path, name, Ok(rom)).memory.subrange(
        PROGRAM_START as int,
        PROGRAM_START + rom.len(),
    ) =~= rom);
}

/// A ROM that does not fit changes nothing but the error: memory and the
/// ROM metadata keep their old values, and the error names the size and the
/// allowance.
pub proof fn lemma_load_rom_too_large(s: MachineV, path: Seq<char>, name: Seq<char>, rom: Seq<u8>)
    requires
        rom.len() > MAX_ROM_SIZE,
    ensures
        load_game_spec(s, path, name, Ok(rom)) == with_error(
            s,
            ErrorV::RomTooLarge { path: path, size: rom.len() as usize, allowed: MAX_ROM_SIZE },
        ),
        load_game_spec(s, path, name, Ok(rom)).memory == s.memory,
        load_game_spec(s, path, name, Ok(rom)).rom_name == s.rom_name,
        load_game_spec(s, path, name, Ok(rom)).rom_size == s.rom_size,
{
}

/// A return on an empty call stack always fails: one step from a state whose
/// next instruction is `00EE` and whose call stack is empty records
/// `InvalidReturn` carrying the program counter the instruction was fetched
/// from, and changes nothing else but the advanced counter.
pub proof fn lemma_empty_stack_return(s: MachineV, rnd: u8)
    requires
        s.wf(),
        fetch16(s) == 0x00EE,
        s.stack.len() == 0,
    ensures
        step(s, rnd) == with_error(
            advance(s),
            ErrorV::InvalidReturn { address: advance(s).pc.wrapping_sub(2) },
        ),
        step(s, rnd).error == Some(ErrorV::InvalidReturn { address: s.pc }),
{
    reveal(step);
    assert(crate::dispatch::op_hi(0x00EE) == 0) by (bit_vector);
}

/// Two offsets under one window of a modulus land on the same residue only
/// when they are equal.
proof fn lemma_mod_window(a: int, d1: int, d2: int, m: int)
    requires
        m > 0,
        a >= 0,
        0 <= d1 < m,
        0 <= d2 < m,
        (a + d1) % m == (a + d2) % m,
    ensures
        d1 == d2,
{
    vstd::arithmetic::div_mod::lemma_fundamental_div_mod(a + d1, m);
    vstd::arithmetic::div_mod::lemma_fundamental_div_mod(a + d2, m);
    let q1 = (a + d1) / m;
    let q2 = (a + d2) / m;
    assert(d1 - d2 == m * q1 - m * q2);
    assert(q1 == q2) by (nonlinear_arith)
        requires
            d1 - d2 == m * q1 - m * q2,
            -m < d1 - d2 < m,
            m > 0,
    ;
}

/// Distinct sprite pixels land on distinct framebuffer pixels: a sprite is
/// at most 8 wide and 16 tall, under a 64 by 32 wrap.
proof fn lemma_target_inj(vx: u8, vy: u8, j1: int, j2: int)
    requires
        0 <= j1 < 128,
        0 <= j2 < 128,
        j1 != j2,
    ensures
        crate::dispatch::target(vx, vy, j1) != crate::dispatch::target(vx, vy, j2),
{
    let r1 = j1 / 8;
    let c1 = j1 % 8;
    let r2 = j2 / 8;
    let c2 = j2 % 8;
    if crate::dispatch::target(vx, vy, j1) == crate::dispatch::target(vx, vy, j2) {
        assert((vy as int + r1) % 32 == (vy as int + r2) % 32 && (vx as int + c1) % 64 == (
        vx as int + c2) % 64);
        lemma_mod_window(vy as int, r1, r2, 32);
        lemma_mod_window(vx as int, c1, c2, 64);
        assert(j1 == 8 * r1 + c1 && j2 == 8 * r2 + c2);
        assert(false);
    }
}

/// Every sprite pixel lands inside the framebuffer.
proof fn lemma_target_bounds(vx: u8, vy: u8, j: int)
    requires
        0 <= j,
    ensures
        0 <= crate::dispatch::target(vx, vy, j) < 2048,
{
}

/// What a draw does to each pixel: a pixel some sprite pixel lands on is
/// XORed with that sprite bit; every other pixel keeps its value.
proof fn lemma_draw_fb_at(fb: Seq<bool>, mem: Seq<u8>, i: u16, vx: u8, vy: u8, k: nat)
    requires
        fb.len() == 2048,
        k <= 128,
    ensures
        crate::dispatch::draw_fb(fb, mem, i, vx, vy, k).len() == 2048,
        forall|j: int|
            0 <= j < k ==> crate::dispatch::draw_fb(fb, mem, i, vx, vy, k)[#[trigger] crate::dispatch::target(
                vx,
                vy,
                j,
            )] == (fb[crate::dispatch::target(vx, vy, j)] != crate::dispatch::sprite_bit(
                mem,
                i,
                j,
            )),
        forall|p: int|
            0 <= p < 2048 && (forall|j: int|
                0 <= j < k ==> #[trigger] crate::dispatch::target(vx, vy, j) != p)
                ==> #[trigger] crate::dispatch::draw_fb(fb, mem, i, vx, vy, k)[p] == fb[p],
    decreases k,
{
    crate::dispatch::lemma_draw_fb_len(fb, mem, i, vx, vy, k);
    if k > 0 {
        lemma_draw_fb_at(fb, mem, i, vx, vy, (k - 1) as nat);
        let prev = crate::dispatch::draw_fb(fb, mem, i, vx, vy, (k - 1) as nat);
        let cur = crate::dispatch::draw_fb(fb, mem, i, vx, vy, k);
        let pk = crate::dispatch::target(vx, vy, k - 1);
        lemma_target_bounds(vx, vy, k - 1);
        assert forall|j: int| 0 <= j < k - 1 implies #[trigger] crate::dispatch::target(vx, vy, j)
            != pk by {
            lemma_target_inj(vx, vy, j, k - 1);
        }
        assert(prev[pk] == fb[pk]);
        assert forall|j: int| 0 <= j < k implies cur[#[trigger] crate::dispatch::target(
            vx,
            vy,
            j,
        )] == (fb[crate::dispatch::target(vx, vy, j)] != crate::dispatch::sprite_bit(
            mem,
            i,
            j,
        )) by {
            if j < k - 1 {
                lemma_target_inj(vx, vy, j, k - 1);
            }
        }
    }
}

/// When a draw reports a collision: exactly when some sprite bit is set over
/// a pixel that was already on before the draw began.
proof fn lemma_draw_hits_at(fb: Seq<bool>, mem: Seq<u8>, i: u16, vx: u8, vy: u8, k: nat)
    requires
        fb.len() == 2048,
        k <= 128,
    ensures
        crate::dispatch::draw_hits(fb, mem, i, vx, vy, k) == exists|j: int|
            0 <= j < k && crate::dispatch::sprite_bit(mem, i, j)
                && fb[#[trigger] crate::dispatch::target(vx, vy, j)],
    decreases k,
{
    if k > 0 {
        lemma_draw_hits_at(fb, mem, i, vx, vy, (k - 1) as nat);
        lemma_draw_fb_at(fb, mem, i, vx, vy, (k - 1) as nat);
        let pk = crate::dispatch::target(vx, vy, k - 1);
        lemma_target_bounds(vx, vy, k - 1);
        assert forall|j: int| 0 <= j < k - 1 implies #[trigger] crate::dispatch::target(vx, vy, j)
            != pk by {
            lemma_target_inj(vx, vy, j, k - 1);
        }
        assert(crate::dispatch::draw_fb(fb, mem, i, vx, vy, (k - 1) as nat)[pk] == fb[pk]);
        if crate::dispatch::draw_hits(fb, mem, i, vx, vy, k) {
            if crate::dispatch::draw_hits(fb, mem, i, vx, vy, (k - 1) as nat) {
                let j = choose|j: int|
                    0 <= j < k - 1 && crate::dispatch::sprite_bit(mem, i, j)
                        && fb[#[trigger] crate::dispatch::target(vx, vy, j)];
                assert(0 <= j < k && crate::dispatch::sprite_bit(mem, i, j) && fb[
                crate::dispatch::target(vx, vy, j)]);
            } else {
                assert(0 <= k - 1 < k && crate::dispatch::sprite_bit(mem, i, k - 1) && fb[
                crate::dispatch::target(vx, vy, k - 1)]);
            }
        }
    }
}

/// Drawing one sprite twice at one place restores every pixel: the XOR draw
/// is its own inverse, because distinct sprite pixels land on distinct
/// framebuffer pixels.
pub proof fn lemma_draw_twice_restores(fb: Seq<bool>, mem: Seq<u8>, i: u16, vx: u8, vy: u8, n: nat)
    requires
        fb.len() == 2048,
        n <= 15,
    ensures
        crate::dispatch::draw_fb(
            crate::dispatch::draw_fb(fb, mem, i, vx, vy, 8 * n),
            mem,
            i,
            vx,
            vy,
            8 * n,
        ) == fb,
{
    let fb1 = crate::dispatch::draw_fb(fb, mem, i, vx, vy, 8 * n);
    let fb2 = crate::dispatch::draw_fb(fb1, mem, i, vx, vy, 8 * n);
    lemma_draw_fb_at(fb, mem, i, vx, vy, 8 * n);
    lemma_draw_fb_at(fb1, mem, i, vx, vy, 8 * n);
    assert forall|p: int| 0 <= p < 2048 implies fb2[p] == fb[p] by {
        if exists|j: int| 0 <= j < 8 * n && #[trigger] crate::dispatch::target(vx, vy, j) == p {
            let j = choose|j: int|
                0 <= j < 8 * n && #[trigger] crate::dispatch::target(vx, vy, j) == p;
            assert(fb1[p] == (fb[p] != crate::dispatch::sprite_bit(mem, i, j)));
            assert(fb2[p] == (fb1[p] != crate::dispatch::sprite_bit(mem, i, j)));
        } else {
            assert(forall|j: int|
                0 <= j < 8 * n ==> #[trigger] crate::dispatch::target(vx, vy, j) != p);
            assert(fb1[p] == fb[p]);
            assert(fb2[p] == fb1[p]);
        }
    }
    assert(fb2 =~= fb);
}

/// On a blank screen the first draw of a sprite reports no collision, and
/// drawing the same sprite again at the same place reports one exactly when
/// the sprite has any set bit among its drawn rows.
pub proof fn lemma_draw_twice_collides(fb: Seq<bool>, mem: Seq<u8>, i: u16, vx: u8, vy: u8, n: nat)
    requires
        fb.len() == 2048,
        n <= 15,
        forall|p: int| 0 <= p < 2048 ==> !fb[p],
    ensures
        !crate::dispatch::draw_hits(fb, mem, i, vx, vy, 8 * n),
        crate::dispatch::draw_hits(
            crate::dispatch::draw_fb(fb, mem, i, vx, vy, 8 * n),
            mem,
            i,
            vx,
            vy,
            8 * n,
        ) == exists|j: int| 0 <= j < 8 * n && #[trigger] crate::dispatch::sprite_bit(mem, i, j),
{
    let fb1 = crate::dispatch::draw_fb(fb, mem, i, vx, vy, 8 * n);
    lemma_draw_fb_at(fb, mem, i, vx, vy, 8 * n);
    lemma_draw_hits_at(fb, mem, i, vx, vy, 8 * n);
    lemma_draw_hits_at(fb1, mem, i, vx, vy, 8 * n);
    assert forall|j: int| 0 <= j < 8 * n implies !(crate::dispatch::sprite_bit(mem, i, j) && fb[
    #[trigger] crate::dispatch::target(vx, vy, j)]) by {
        lemma_target_bounds(vx, vy, j);
    }
    if exists|j: int| 0 <= j < 8 * n && #[trigger] crate::dispatch::sprite_bit(mem, i, j) {
        let j = choose|j: int| 0 <= j < 8 * n && #[trigger] crate::dispatch::sprite_bit(mem, i, j);
        lemma_target_bounds(vx, vy, j);
        assert(fb1[crate::dispatch::target(vx, vy, j)] == (fb[crate::dispatch::target(vx, vy, j)]
            != crate::dispatch::sprite_bit(mem, i, j)));
        assert(crate::dispatch::sprite_bit(mem, i, j) && fb1[crate::dispatch::target(vx, vy, j)]);
    } else {
        assert forall|j: int| 0 <= j < 8 * n implies !(crate::dispatch::sprite_bit(mem, i, j)
            && fb1[#[trigger] crate::dispatch::target(vx, vy, j)]) by {
        }
    }
}

/// The instruction word stored at byte address `a` of `mem`, big-endian,
/// addresses wrapping at the 4096-byte boundary.
pub open spec fn op_at(mem: Seq<u8>, a: int) -> u16 {
    ((mem[a % (MEMORY_SIZE as int)] as u16) << 8) | (mem[(a + 1) % (MEMORY_SIZE as int)] as u16)
}

/// The instructions that only advance the program counter by 2: no jump,
/// call, return, skip or key wait, no write to memory, and no pattern the
/// decoder rejects.
pub open spec fn advances_only(op: u16) -> bool {
    let hi = crate::dispatch::op_hi(op);
    let n = crate::dispatch::op_n(op);
    let nn = crate::dispatch::op_nn(op);
    ||| (hi == 0x0 && op != 0x00EE)
    ||| hi == 0x6
    ||| hi == 0x7
    ||| (hi == 0x8 && (n == 0x0 || n == 0x1 || n == 0x2 || n == 0x3 || n == 0x4 || n == 0x5 || n
        == 0x6 || n == 0x7 || n == 0xE))
    ||| hi == 0xA
    ||| hi == 0xC
    ||| hi == 0xD
    ||| (hi == 0xF && (nn == 0x07 || nn == 0x15 || nn == 0x18 || nn == 0x1E || nn == 0x29 || nn
        == 0x65))
}

/// What an `advances_only` instruction is proved to leave alone: everything
/// that steers control flow or the scheduler, and all of memory.
pub open spec fn plain_reached(s: MachineV, t: MachineV, j: nat) -> bool {
    &&& t.wf()
    &&& t.memory == s.memory
    &&& t.pc == s.pc + 2 * j
    &&& t.error is None
    &&& !t.exit_requested
    &&& t.running == s.running
    &&& t.step_frame == s.step_frame
    &&& t.opf == s.opf
    &&& t.current_frame == s.current_frame
    &&& t.stack == s.stack
    &&& t.keys == s.keys
    &&& t.rom_name == s.rom_name
    &&& t.rom_size == s.rom_size
}

/// One step of an `advances_only` instruction: the program counter moves
/// ahead by 2 and nothing that the scheduler or the instruction stream
/// depends on changes.
proof fn lemma_step_plain(s: MachineV, rnd: u8)
    requires
        s.wf(),
        s.error is None,
        !s.exit_requested,
        advances_only(fetch16(s)),
        s.pc + 2 <= 0xFFFF,
    ensures
        plain_reached(s, step(s, rnd), 1),
{
    reveal(step);
    crate::dispatch::lemma_step_wf(s, rnd);
}

/// Every address in a window holds an `advances_only` instruction.
pub open spec fn plain_ops(mem: Seq<u8>, pc: int, count: nat) -> bool {
    forall|j: int| 0 <= j < count ==> advances_only(#[trigger] op_at(mem, pc + 2 * j))
}

/// A batch over a window of `advances_only` instructions never halts and
/// moves the program counter by exactly 2 per instruction, whatever the
/// random bytes were.
proof fn lemma_plain_batch(s: MachineV, rnds: Seq<u8>, k: nat)
    requires
        s.wf(),
        s.error is None,
        !s.exit_requested,
        plain_ops(s.memory, s.pc as int, k),
        s.pc + 2 * k <= 0xFFFF,
    ensures
        forall|j: nat| j <= k ==> plain_reached(s, #[trigger] crate::sched::batch_run(s, rnds, j), j),
    decreases k,
{
    if k == 0 {
        assert(crate::sched::batch_run(s, rnds, 0) == s);
    } else {
        lemma_plain_batch(s, rnds, (k - 1) as nat);
        let t = crate::sched::batch_run(s, rnds, (k - 1) as nat);
        assert(advances_only(op_at(s.memory, s.pc + 2 * (k - 1))));
        assert(fetch16(t) == op_at(s.memory, s.pc + 2 * (k - 1)));
        lemma_step_plain(t, rnds[k - 1]);
        assert(crate::sched::batch_run(s, rnds, k) == step(t, rnds[k - 1]));
    }
}

/// What one active frame of the scheduler guarantees: the relation
/// `frame_tick` establishes between the machine before and after it.
pub open spec fn frame_rel(pre: MachineV, post: MachineV) -> bool {
    crate::sched::active(pre) ==> exists|rnds: Seq<u8>, m: nat|
        crate::sched::batch_stops(pre, rnds, m, pre.opf as nat) && post
            == crate::sched::finish_frame(crate::sched::batch_run(pre, rnds, m))
}

/// The shape every state of a linear run has after `t` frames.
pub open spec fn linear_state(s0: MachineV, s: MachineV, k: nat, t: nat) -> bool {
    &&& s.wf()
    &&& s.memory == s0.memory
    &&& s.pc == 512 + 2 * (k * t)
    &&& s.current_frame == t
    &&& s.running
    &&& !s.step_frame
    &&& !s.exit_requested
    &&& s.error is None
    &&& s.opf == k
}

proof fn lemma_linear_run_upto(trace: Seq<MachineV>, k: nat, n: nat, t: nat)
    requires
        trace.len() == n + 1,
        trace[0].wf(),
        trace[0].pc == 512,
        trace[0].current_frame == 0,
        trace[0].running,
        !trace[0].step_frame,
        !trace[0].exit_requested,
        trace[0].error is None,
        trace[0].opf == k,
        512 + 2 * (k * n) <= 0xFFFF,
        n < 0x100000000,
        plain_ops(trace[0].memory, 512, k * n),
        forall|u: int| 0 <= u < n ==> frame_rel(trace[u], #[trigger] trace[u + 1]),
        t <= n,
    ensures
        linear_state(trace[0], trace[t as int], k, t),
    decreases t,
{
    let s0 = trace[0];
    if t == 0 {
        assert(k * 0 == 0);
    } else {
        lemma_linear_run_upto(trace, k, n, (t - 1) as nat);
        let pre = trace[t - 1];
        assert(k * (t - 1) + k == k * t && k * t <= k * n) by (nonlinear_arith)
            requires
                t >= 1,
                t <= n,
        ;
        assert(crate::sched::active(pre));
        assert(frame_rel(trace[t - 1], trace[t - 1 + 1]));
        assert(frame_rel(pre, trace[t as int]));
        let (rnds, m) = choose|rnds: Seq<u8>, m: nat|
            crate::sched::batch_stops(pre, rnds, m, pre.opf as nat) && trace[t as int]
                == crate::sched::finish_frame(crate::sched::batch_run(pre, rnds, m));
        assert forall|jj: int| 0 <= jj < k implies advances_only(
            #[trigger] op_at(pre.memory, pre.pc as int + 2 * jj),
        ) by {
            assert(k * (t - 1) + jj < k * n) by (nonlinear_arith)
                requires
                    0 <= jj < k,
                    1 <= t <= n,
            ;
            let jdx: int = k * (t - 1) + jj;
            assert(0 <= jdx < k * n);
            assert(advances_only(op_at(s0.memory, 512 + 2 * jdx)));
            assert(pre.pc as int + 2 * jj == 512 + 2 * jdx);
            assert(op_at(pre.memory, pre.pc as int + 2 * jj) == op_at(s0.memory, 512 + 2 * jdx));
        }
        assert(plain_ops(pre.memory, pre.pc as int, k));
        lemma_plain_batch(pre, rnds, k);
        assert(m == k) by {
            if m < k {
                assert(plain_reached(pre, crate::sched::batch_run(pre, rnds, m), m));
            }
        }
        assert(plain_reached(pre, crate::sched::batch_run(pre, rnds, k), k));
    }
}

/// A linear run: with `opcodes_per_frame` set to `k`, a running machine
/// whose reachable instruction window holds only instructions that advance
/// the program counter by 2 reaches, after `n` frames, frame counter `n` and
/// program counter `512 + 2*k*n`, with memory untouched and no error —
/// whatever the random source did.
pub proof fn lemma_linear_run(trace: Seq<MachineV>, k: nat, n: nat)
    requires
        trace.len() == n + 1,
        trace[0].wf(),
        trace[0].pc == 512,
        trace[0].current_frame == 0,
        trace[0].running,
        !trace[0].step_frame,
        !trace[0].exit_requested,
        trace[0].error is None,
        trace[0].opf == k,
        512 + 2 * (k * n) <= 0xFFFF,
        n < 0x100000000,
        plain_ops(trace[0].memory, 512, k * n),
        forall|u: int| 0 <= u < n ==> frame_rel(trace[u], #[trigger] trace[u + 1]),
    ensures
        trace[n as int].pc == 512 + 2 * (k * n),
        trace[n as int].current_frame == n,
        trace[n as int].memory == trace[0].memory,
        trace[n as int].running,
        trace[n as int].error is None,
{
    lemma_linear_run_upto(trace, k, n, n);
}

/// The carried sleep error after `t` scheduler iterations whose work took
/// `elapsed[..t]` and whose sleeps delivered `slept[..t]`.
pub open spec fn carry_after(elapsed: Seq<int>, slept: Seq<int>, t: nat) -> int
    decreases t,
{
    if t == 0 {
        0
    } else {
        crate::sched::next_sleep_error(
            crate::sched::sleep_needed(elapsed[t - 1], carry_after(elapsed, slept, (t - 1) as nat)),
            slept[t - 1],
        )
    }
}

/// The wall time of the first `t` scheduler iterations: work plus sleep.
pub open spec fn total_time(elapsed: Seq<int>, slept: Seq<int>, t: nat) -> int
    decreases t,
{
    if t == 0 {
        0
    } else {
        total_time(elapsed, slept, (t - 1) as nat) + elapsed[t - 1] + slept[t - 1]
    }
}

/// Drift compensation: over a run in which every iteration had sleep budget
/// left and the carried error never reached the clamp, the total wall time
/// of `n` iterations is exactly `n` target intervals less the final carried
/// error. The carried error is bounded, so the mean inter-iteration
/// interval converges to the target as the run grows.
pub proof fn lemma_drift_compensation(elapsed: Seq<int>, slept: Seq<int>, n: nat)
    requires
        forall|t: nat|
            t < n ==> crate::sched::sleep_needed(
                elapsed[t as int],
                #[trigger] carry_after(elapsed, slept, t),
            ) > 0,
        forall|t: nat|
            t < n ==> -crate::sched::TIME_CLAMP_MICROS <= crate::sched::sleep_needed(
                elapsed[t as int],
                #[trigger] carry_after(elapsed, slept, t),
            ) - slept[t as int] <= crate::sched::TIME_CLAMP_MICROS,
    ensures
        total_time(elapsed, slept, n) == n * (crate::sched::FRAME_MICROS as int) - carry_after(
            elapsed,
            slept,
            n,
        ),
    decreases n,
{
    if n > 0 {
        lemma_drift_compensation(elapsed, slept, (n - 1) as nat);
        assert((n - 1) * (crate::sched::FRAME_MICROS as int) + crate::sched::FRAME_MICROS == n * (
        crate::sched::FRAME_MICROS as int)) by (nonlinear_arith);
    }
}

} // verus!
