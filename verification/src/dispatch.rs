//! The instruction decoder/dispatcher: given the machine state and the
//! instruction word fetched at the program counter, mutates the state
//! according to the instruction semantics.
//!
//! Every instruction's effect is stated by a spec function over `MachineV`;
//! `step` composes the fetch with the dispatch on the high nibble, and
//! `execute_opcode` is proved to implement it. Memory reads and writes mask
//! their address to the 4096-byte address space, so no access is ever out of
//! bounds even when a ROM drives the address register or program counter past
//! the top of memory.
use vstd::prelude::*;

use crate::machine::{CoreState, ErrorKind, ErrorV, MachineV, BASE_HEIGHT, BASE_WIDTH, MEMORY_SIZE};

verus! {

/// Register selector from bits 8..12 of the opcode.
pub open spec fn op_x(op: u16) -> int {
    ((op >> 8) & 0xF) as int
}

/// Register selector from bits 4..8 of the opcode.
pub open spec fn op_y(op: u16) -> int {
    ((op >> 4) & 0xF) as int
}

/// Low nibble of the opcode.
pub open spec fn op_n(op: u16) -> u16 {
    op & 0xF
}

/// Low byte of the opcode.
pub open spec fn op_nn(op: u16) -> u8 {
    (op & 0xFF) as u8
}

/// Low twelve bits of the opcode: an absolute address.
pub open spec fn op_nnn(op: u16) -> u16 {
    op & 0xFFF
}

/// High nibble of the opcode: the instruction family.
pub open spec fn op_hi(op: u16) -> u16 {
    (op >> 12) & 0xF
}

/// The byte of memory a 16-bit address reaches: addresses wrap at the
/// 4096-byte boundary.
pub open spec fn mem_at(m: Seq<u8>, a: u16) -> u8 {
    m[a as int % (MEMORY_SIZE as int)]
}

/// The instruction word at the program counter, big-endian.
pub open spec fn fetch16(s: MachineV) -> u16 {
    ((mem_at(s.memory, s.pc) as u16) << 8) | (mem_at(s.memory, s.pc.wrapping_add(1)) as u16)
}

/// The state after the fetch: the program counter is advanced by 2 before the
/// opcode is interpreted, so jumps overwrite the already-advanced value.
pub open spec fn advance(s: MachineV) -> MachineV {
    MachineV { pc: s.pc.wrapping_add(2), ..s }
}

/// A conditional skip: the program counter advances over one instruction.
pub open spec fn skip(s: MachineV) -> MachineV {
    MachineV { pc: s.pc.wrapping_add(2), ..s }
}

/// The state with a terminal error recorded.
pub open spec fn with_error(s: MachineV, e: ErrorV) -> MachineV {
    MachineV { error: Some(e), ..s }
}

/// The state after an unrecognized opcode pattern: `InvalidOpcode` carrying
/// the raw opcode and the address it was fetched from.
pub open spec fn invalid(s: MachineV, op: u16) -> MachineV {
    with_error(s, ErrorV::InvalidOpcode { opcode: op, address: s.pc.wrapping_sub(2) })
}

/// `00E0`/`00EE`/`0NNN`: clear the framebuffer, return from a subroutine, or
/// ignore a legacy machine-code call.
pub open spec fn step0(s: MachineV, op: u16) -> MachineV {
    if op == 0x00E0 {
        MachineV { fb: Seq::new((BASE_WIDTH * BASE_HEIGHT) as nat, |p: int| false), ..s }
    } else if op == 0x00EE {
        if s.stack.len() == 0 {
            with_error(s, ErrorV::InvalidReturn { address: s.pc.wrapping_sub(2) })
        } else {
            MachineV { pc: s.stack.last(), stack: s.stack.drop_last(), ..s }
        }
    } else {
        s
    }
}

/// `1NNN`: jump.
pub open spec fn step1(s: MachineV, op: u16) -> MachineV {
    MachineV { pc: op_nnn(op), ..s }
}

/// `2NNN`: call; the already-advanced program counter is pushed.
pub open spec fn step2(s: MachineV, op: u16) -> MachineV {
    MachineV { stack: s.stack.push(s.pc), pc: op_nnn(op), ..s }
}

/// `3XNN`: skip if VX equals the immediate.
pub open spec fn step3(s: MachineV, op: u16) -> MachineV {
    if s.v[op_x(op)] == op_nn(op) {
        skip(s)
    } else {
        s
    }
}

/// `4XNN`: skip if VX differs from the immediate.
pub open spec fn step4(s: MachineV, op: u16) -> MachineV {
    if s.v[op_x(op)] != op_nn(op) {
        skip(s)
    } else {
        s
    }
}

/// `5XY0`: skip if VX equals VY; a nonzero low nibble is an invalid opcode,
/// recorded before the comparison still runs.
pub open spec fn step5(s: MachineV, op: u16) -> MachineV {
    let s1 = if op_n(op) != 0 {
        invalid(s, op)
    } else {
        s
    };
    if s.v[op_x(op)] == s.v[op_y(op)] {
        skip(s1)
    } else {
        s1
    }
}

/// `6XNN`: load the immediate into VX.
pub open spec fn step6(s: MachineV, op: u16) -> MachineV {
    MachineV { v: s.v.update(op_x(op), op_nn(op)), ..s }
}

/// `7XNN`: add the immediate to VX with 8-bit wraparound, no flag.
pub open spec fn step7(s: MachineV, op: u16) -> MachineV {
    MachineV { v: s.v.update(op_x(op), s.v[op_x(op)].wrapping_add(op_nn(op))), ..s }
}

/// `8XY0..8XY7, 8XYE`: register-register ALU operations. The bitwise
/// operations additionally reset VF to 0; add and both subtract orders record
/// carry/no-borrow in VF; the shifts capture the bit shifted out in VF. The
/// flag is written after the result, so with X = F the flag wins.
pub open spec fn step8(s: MachineV, op: u16) -> MachineV {
    let x = op_x(op);
    let y = op_y(op);
    let n = op_n(op);
    let vx = s.v[x];
    let vy = s.v[y];
    if n == 0x0 {
        MachineV { v: s.v.update(x, vy), ..s }
    } else if n == 0x1 {
        MachineV { v: s.v.update(x, vx | vy).update(15, 0u8), ..s }
    } else if n == 0x2 {
        MachineV { v: s.v.update(x, vx & vy).update(15, 0u8), ..s }
    } else if n == 0x3 {
        MachineV { v: s.v.update(x, vx ^ vy).update(15, 0u8), ..s }
    } else if n == 0x4 {
        MachineV {
            v: s.v.update(x, vx.wrapping_add(vy)).update(15, if vx + vy > 255 { 1u8 } else { 0u8 }),
            ..s
        }
    } else if n == 0x5 {
        MachineV {
            v: s.v.update(x, vx.wrapping_sub(vy)).update(15, if vx >= vy { 1u8 } else { 0u8 }),
            ..s
        }
    } else if n == 0x6 {
        MachineV { v: s.v.update(x, vx >> 1).update(15, vx & 1), ..s }
    } else if n == 0x7 {
        MachineV {
            v: s.v.update(x, vy.wrapping_sub(vx)).update(15, if vy >= vx { 1u8 } else { 0u8 }),
            ..s
        }
    } else if n == 0xE {
        MachineV { v: s.v.update(x, vx << 1).update(15, (vx >> 7) & 1), ..s }
    } else {
        invalid(s, op)
    }
}

/// `9XY0`: skip if VX differs from VY; a nonzero low nibble is an invalid
/// opcode, recorded before the comparison still runs.
pub open spec fn step9(s: MachineV, op: u16) -> MachineV {
    let s1 = if op_n(op) != 0 {
        invalid(s, op)
    } else {
        s
    };
    if s.v[op_x(op)] != s.v[op_y(op)] {
        skip(s1)
    } else {
        s1
    }
}

/// `ANNN`: load the address register.
pub open spec fn step_a(s: MachineV, op: u16) -> MachineV {
    MachineV { i: op_nnn(op), ..s }
}

/// `BNNN`: jump to the address plus V0.
pub open spec fn step_b(s: MachineV, op: u16) -> MachineV {
    MachineV { pc: (s.v[0] + op_nnn(op)) as u16, ..s }
}

/// One full instruction step: fetch the word at the program counter, advance
/// the counter by 2, then dispatch on the high nibble. `rnd` is the byte the
/// random source would hand a `CXNN` instruction; every other family ignores
/// it.
///
/// The definition is opaque: proofs unfold it only where they say so.
#[verifier::opaque]
pub open spec fn step(s: MachineV, rnd: u8) -> MachineV {
    let op = fetch16(s);
    let s2 = advance(s);
    let hi = op_hi(op);
    if hi == 0x0 {
        step0(s2, op)
    } else if hi == 0x1 {
        step1(s2, op)
    } else if hi == 0x2 {
        step2(s2, op)
    } else if hi == 0x3 {
        step3(s2, op)
    } else if hi == 0x4 {
        step4(s2, op)
    } else if hi == 0x5 {
        step5(s2, op)
    } else if hi == 0x6 {
        step6(s2, op)
    } else if hi == 0x7 {
        step7(s2, op)
    } else if hi == 0x8 {
        step8(s2, op)
    } else if hi == 0x9 {
        step9(s2, op)
    } else if hi == 0xA {
        step_a(s2, op)
    } else if hi == 0xB {
        step_b(s2, op)
    } else if hi == 0xC {
        step_c(s2, op, rnd)
    } else if hi == 0xD {
        step_d(s2, op)
    } else if hi == 0xE {
        step_e(s2, op)
    } else {
        step_f(s2, op)
    }
}

/// Drawing never changes the size of the framebuffer.
pub proof fn lemma_draw_fb_len(fb: Seq<bool>, mem: Seq<u8>, i: u16, vx: u8, vy: u8, k: nat)
    requires
        fb.len() == BASE_WIDTH * BASE_HEIGHT,
    ensures
        draw_fb(fb, mem, i, vx, vy, k).len() == fb.len(),
    decreases k,
{
    if k > 0 {
        lemma_draw_fb_len(fb, mem, i, vx, vy, (k - 1) as nat);
    }
}

/// A block store never changes the size of memory.
pub proof fn lemma_store_regs_len(mem: Seq<u8>, v: Seq<u8>, i: u16, k: nat)
    requires
        mem.len() == MEMORY_SIZE,
    ensures
        store_regs(mem, v, i, k).len() == mem.len(),
    decreases k,
{
    if k > 0 {
        lemma_store_regs_len(mem, v, i, (k - 1) as nat);
    }
}

/// A block load never changes the size of the register file.
pub proof fn lemma_load_regs_len(mem: Seq<u8>, v: Seq<u8>, i: u16, k: nat)
    requires
        v.len() == 16,
        k <= 16,
    ensures
        load_regs(mem, v, i, k).len() == v.len(),
    decreases k,
{
    if k > 0 {
        lemma_load_regs_len(mem, v, i, (k - 1) as nat);
    }
}

/// An instruction step leaves every dimension of the machine intact.
pub proof fn lemma_step_wf(s: MachineV, rnd: u8)
    requires
        s.wf(),
    ensures
        step(s, rnd).wf(),
{
    reveal(step);
    let op = fetch16(s);
    let s2 = advance(s);
    assert(((op >> 8) & 0xF) < 16) by (bit_vector);
    lemma_draw_fb_len(s2.fb, s2.memory, s2.i, s2.v[op_x(op)], s2.v[op_y(op)], (8 * op_n(op)) as nat);
    lemma_store_regs_len(s2.memory, s2.v, s2.i, (op_x(op) + 1) as nat);
    lemma_load_regs_len(s2.memory, s2.v, s2.i, (op_x(op) + 1) as nat);
}

/// No instruction reaches the scheduler's own bookkeeping: the run flags,
/// the speed setting, the frame counter, the ROM metadata, the key states
/// and the instrumentation belong to the command interface and the frame
/// loop alone.
pub proof fn lemma_step_scheduler_fields(s: MachineV, rnd: u8)
    ensures
        step(s, rnd).running == s.running,
        step(s, rnd).step_frame == s.step_frame,
        step(s, rnd).exit_requested == s.exit_requested,
        step(s, rnd).opf == s.opf,
        step(s, rnd).current_frame == s.current_frame,
        step(s, rnd).rom_name == s.rom_name,
        step(s, rnd).rom_size == s.rom_size,
        step(s, rnd).keys == s.keys,
        step(s, rnd).frame_micros == s.frame_micros,
        step(s, rnd).frame_micros_with_sleep == s.frame_micros_with_sleep,
{
    reveal(step);
}

/// Extracts the X register selector, bounded for indexing.
fn x_of(op: u16) -> (x: usize)
    ensures
        x as int == op_x(op),
        x < 16,
{
    proof {
        assert(((op >> 8) & 0xF) < 16) by (bit_vector);
    }
    ((op >> 8) & 0xF) as usize
}

/// Extracts the Y register selector, bounded for indexing.
fn y_of(op: u16) -> (y: usize)
    ensures
        y as int == op_y(op),
        y < 16,
{
    proof {
        assert(((op >> 4) & 0xF) < 16) by (bit_vector);
    }
    ((op >> 4) & 0xF) as usize
}

/// Extracts the low byte of the opcode.
fn nn_of(op: u16) -> (nn: u8)
    ensures
        nn == op_nn(op),
{
    proof {
        assert((op & 0xFF) <= 0xFF) by (bit_vector);
    }
    (op & 0xFF) as u8
}

/// `CXNN`: VX is set to a random byte masked by NN. The byte drawn is an
/// explicit parameter: nothing else about it is determined.
pub open spec fn step_c(s: MachineV, op: u16, rnd: u8) -> MachineV {
    MachineV { v: s.v.update(op_x(op), rnd & op_nn(op)), ..s }
}

/// Whether the key numbered by `key` is down; values above 0xF name no key.
pub open spec fn key_down(s: MachineV, key: u8) -> bool {
    key <= 0xF && s.keys[key as int]
}

/// `EX9E`/`EXA1`: skip if the key numbered by VX is down / is not down; any
/// other low byte is an invalid opcode.
pub open spec fn step_e(s: MachineV, op: u16) -> MachineV {
    let nn = op_nn(op);
    let k = s.v[op_x(op)];
    if nn == 0x9E {
        if key_down(s, k) {
            skip(s)
        } else {
            s
        }
    } else if nn == 0xA1 {
        if !key_down(s, k) {
            skip(s)
        } else {
            s
        }
    } else {
        invalid(s, op)
    }
}

/// The lowest-numbered key that is down among keys `k` and above.
pub open spec fn first_key_from(keys: Seq<bool>, k: int) -> Option<u8>
    decreases 16 - k,
{
    if k < 0 || k >= 16 {
        None
    } else if keys[k] {
        Some(k as u8)
    } else {
        first_key_from(keys, k + 1)
    }
}

/// The lowest-numbered key that is down, if any.
pub open spec fn first_key(keys: Seq<bool>) -> Option<u8> {
    first_key_from(keys, 0)
}

/// The first `k` registers stored to memory starting at the address
/// register; addresses wrap at the 4096-byte boundary.
pub open spec fn store_regs(mem: Seq<u8>, v: Seq<u8>, i: u16, k: nat) -> Seq<u8>
    decreases k,
{
    if k == 0 {
        mem
    } else {
        store_regs(mem, v, i, (k - 1) as nat).update(
            (i as int + k - 1) % (MEMORY_SIZE as int),
            v[k - 1],
        )
    }
}

/// The first `k` registers loaded from memory starting at the address
/// register; addresses wrap at the 4096-byte boundary.
pub open spec fn load_regs(mem: Seq<u8>, v: Seq<u8>, i: u16, k: nat) -> Seq<u8>
    decreases k,
{
    if k == 0 {
        v
    } else {
        load_regs(mem, v, i, (k - 1) as nat).update(
            k - 1,
            mem[(i as int + k - 1) % (MEMORY_SIZE as int)],
        )
    }
}

/// The framebuffer index that sprite pixel `j` (row `j / 8`, column `j % 8`)
/// lands on: coordinates wrap at the screen edges, not clip.
pub open spec fn target(vx: u8, vy: u8, j: int) -> int {
    ((vy as int + j / 8) % (BASE_HEIGHT as int)) * (BASE_WIDTH as int) + ((vx as int + j % 8) % (
    BASE_WIDTH as int))
}

/// Sprite pixel `j` of the sprite whose rows start at the address register:
/// bit `7 - (j % 8)` of row byte `j / 8`.
pub open spec fn sprite_bit(mem: Seq<u8>, i: u16, j: int) -> bool {
    (mem[(i as int + j / 8) % (MEMORY_SIZE as int)] >> ((7 - j % 8) as u8)) & 1 == 1
}

/// The framebuffer after the first `k` sprite pixels have been XOR-drawn.
pub open spec fn draw_fb(fb: Seq<bool>, mem: Seq<u8>, i: u16, vx: u8, vy: u8, k: nat) -> Seq<bool>
    decreases k,
{
    if k == 0 {
        fb
    } else {
        let prev = draw_fb(fb, mem, i, vx, vy, (k - 1) as nat);
        let p = target(vx, vy, k - 1);
        if sprite_bit(mem, i, k - 1) {
            prev.update(p, !prev[p])
        } else {
            prev
        }
    }
}

/// Whether any of the first `k` sprite pixels turned an already-set pixel
/// off: the collision flag of the draw.
pub open spec fn draw_hits(fb: Seq<bool>, mem: Seq<u8>, i: u16, vx: u8, vy: u8, k: nat) -> bool
    decreases k,
{
    if k == 0 {
        false
    } else {
        draw_hits(fb, mem, i, vx, vy, (k - 1) as nat) || (sprite_bit(mem, i, k - 1) && draw_fb(
            fb,
            mem,
            i,
            vx,
            vy,
            (k - 1) as nat,
        )[target(vx, vy, k - 1)])
    }
}

/// `DXYN`: XOR-draw the N-row sprite at the address register to coordinates
/// (VX, VY), wrapping at the screen edges; VF records whether any pixel was
/// turned from on to off.
pub open spec fn step_d(s: MachineV, op: u16) -> MachineV {
    let vx = s.v[op_x(op)];
    let vy = s.v[op_y(op)];
    let k = (8 * op_n(op)) as nat;
    MachineV {
        fb: draw_fb(s.fb, s.memory, s.i, vx, vy, k),
        v: s.v.update(15, if draw_hits(s.fb, s.memory, s.i, vx, vy, k) { 1u8 } else { 0u8 }),
        ..s
    }
}

/// `FX07..FX65`: timers, blocking key read, address-register arithmetic, font
/// addressing, binary-coded decimal, and register block store/load. The
/// blocking key read is realized as a poll: while no key is down the program
/// counter moves back over the instruction, so it runs again after the next
/// command drain. The block store/load leaves the address register
/// unmodified.
pub open spec fn step_f(s: MachineV, op: u16) -> MachineV {
    let nn = op_nn(op);
    let x = op_x(op);
    let vx = s.v[x];
    if nn == 0x07 {
        MachineV { v: s.v.update(x, s.delay), ..s }
    } else if nn == 0x0A {
        match first_key(s.keys) {
            Some(k) => MachineV { v: s.v.update(x, k), ..s },
            None => MachineV { pc: s.pc.wrapping_sub(2), ..s },
        }
    } else if nn == 0x15 {
        MachineV { delay: vx, ..s }
    } else if nn == 0x18 {
        MachineV { sound: vx, ..s }
    } else if nn == 0x1E {
        MachineV { i: s.i.wrapping_add(vx as u16), ..s }
    } else if nn == 0x29 {
        MachineV { i: (vx * 5) as u16, ..s }
    } else if nn == 0x33 {
        MachineV {
            memory: s.memory.update(s.i as int % (MEMORY_SIZE as int), vx / 100).update(
                (s.i as int + 1) % (MEMORY_SIZE as int),
                (vx % 100) / 10,
            ).update((s.i as int + 2) % (MEMORY_SIZE as int), vx % 10),
            ..s
        }
    } else if nn == 0x55 {
        MachineV { memory: store_regs(s.memory, s.v, s.i, (x + 1) as nat), ..s }
    } else if nn == 0x65 {
        MachineV { v: load_regs(s.memory, s.v, s.i, (x + 1) as nat), ..s }
    } else {
        invalid(s, op)
    }
}

impl CoreState {
    /// Fetches the instruction word at the program counter, advances the
    /// counter by 2, and dispatches on the high nibble.
    pub fn execute_opcode(&mut self)
        requires
            old(self).wf(),
        ensures
            exists|rnd: u8| final(self)@ == step(old(self)@, rnd),
            final(self).wf(),
    {
        let pc = self.program_counter;
        let hi_byte = self.read_mem(pc);
        let lo_byte = self.read_mem(pc.wrapping_add(1));
        let opcode: u16 = ((hi_byte as u16) << 8) | (lo_byte as u16);
        self.program_counter = pc.wrapping_add(2);
        proof {
            assert(opcode == fetch16(old(self)@));
            assert(self@ == advance(old(self)@));
            assert(((opcode >> 12) & 0xF) < 16) by (bit_vector);
        }
        let first_nibble = (opcode >> 12) & 0xF;
        match first_nibble {
            0x0 => self.execute_opcode_0(opcode),
            0x1 => self.execute_opcode_1(opcode),
            0x2 => self.execute_opcode_2(opcode),
            0x3 => self.execute_opcode_3(opcode),
            0x4 => self.execute_opcode_4(opcode),
            0x5 => self.execute_opcode_5(opcode),
            0x6 => self.execute_opcode_6(opcode),
            0x7 => self.execute_opcode_7(opcode),
            0x8 => self.execute_opcode_8(opcode),
            0x9 => self.execute_opcode_9(opcode),
            0xA => self.execute_opcode_a(opcode),
            0xB => self.execute_opcode_b(opcode),
            0xC => self.execute_opcode_c(opcode),
            0xD => self.execute_opcode_d(opcode),
            0xE => self.execute_opcode_e(opcode),
            _ => self.execute_opcode_f(opcode),
        }
        proof {
            reveal(step);
            if op_hi(opcode) == 0xC {
                let r = choose|r: u8| self@ == step_c(advance(old(self)@), opcode, r);
                assert(self@ == step(old(self)@, r));
            } else {
                assert(self@ == step(old(self)@, 0u8));
            }
            let r = choose|r: u8| self@ == step(old(self)@, r);
            lemma_step_wf(old(self)@, r);
        }
    }

    /// The byte a 16-bit address reaches; addresses wrap at the 4096-byte
    /// boundary.
    fn read_mem(&self, address: u16) -> (b: u8)
        requires
            self.wf(),
        ensures
            b == mem_at(self@.memory, address),
    {
        self.memory[(address as usize) % MEMORY_SIZE]
    }

    /// Records a terminal error; the scheduler stops executing instructions
    /// once one is set.
    pub(crate) fn core_error(&mut self, error: ErrorKind)
        ensures
            final(self)@ == with_error(old(self)@, error@),
    {
        self.error = Some(error);
    }

    /// Advances the program counter over one instruction.
    fn skip_opcode(&mut self)
        ensures
            final(self)@ == skip(old(self)@),
    {
        self.program_counter = self.program_counter.wrapping_add(2);
    }

    /// `00E0`/`00EE`/`0NNN`: clear the display, return from a subroutine, or
    /// ignore a legacy machine-code call.
    fn execute_opcode_0(&mut self, opcode: u16)
        requires
            old(self).wf(),
        ensures
            final(self)@ == step0(old(self)@, opcode),
    {
        if opcode == 0x00E0 {
            self.framebuffer = crate::machine::filled(false, BASE_WIDTH * BASE_HEIGHT);
        } else if opcode == 0x00EE {
            match self.call_stack.pop() {
                Some(pc) => {
                    self.program_counter = pc;
                },
                None => {
                    let address = self.program_counter.wrapping_sub(2);
                    self.core_error(ErrorKind::InvalidReturn { address });
                },
            }
        }
    }

    /// `1NNN`: jump to address NNN.
    fn execute_opcode_1(&mut self, opcode: u16)
        ensures
            final(self)@ == step1(old(self)@, opcode),
    {
        let nnn = opcode & 0x0FFF;
        self.program_counter = nnn;
    }

    /// `2NNN`: call the subroutine at NNN.
    fn execute_opcode_2(&mut self, opcode: u16)
        ensures
            final(self)@ == step2(old(self)@, opcode),
    {
        let nnn = opcode & 0x0FFF;
        self.call_stack.push(self.program_counter);
        self.program_counter = nnn;
    }

    /// `3XNN`: skip the next instruction if VX equals NN.
    fn execute_opcode_3(&mut self, opcode: u16)
        requires
            old(self).wf(),
        ensures
            final(self)@ == step3(old(self)@, opcode),
    {
        let x = x_of(opcode);
        let nn = nn_of(opcode);
        if self.v_registers[x] == nn {
            self.skip_opcode();
        }
    }

    /// `4XNN`: skip the next instruction if VX differs from NN.
    fn execute_opcode_4(&mut self, opcode: u16)
        requires
            old(self).wf(),
        ensures
            final(self)@ == step4(old(self)@, opcode),
    {
        let x = x_of(opcode);
        let nn = nn_of(opcode);
        if self.v_registers[x] != nn {
            self.skip_opcode();
        }
    }

    /// `5XY0`: skip the next instruction if VX equals VY.
    fn execute_opcode_5(&mut self, opcode: u16)
        requires
            old(self).wf(),
        ensures
            final(self)@ == step5(old(self)@, opcode),
    {
        let last_nibble = opcode & 0x000F;
        if last_nibble != 0x0 {
            let address = self.program_counter.wrapping_sub(2);
            self.core_error(ErrorKind::InvalidOpcode { opcode, address });
        }
        let x = x_of(opcode);
        let y = y_of(opcode);
        if self.v_registers[x] == self.v_registers[y] {
            self.skip_opcode();
        }
    }

    /// `6XNN`: set VX to NN.
    fn execute_opcode_6(&mut self, opcode: u16)
        requires
            old(self).wf(),
        ensures
            final(self)@ == step6(old(self)@, opcode),
    {
        let x = x_of(opcode);
        let nn = nn_of(opcode);
        self.v_registers.set(x, nn);
    }

    /// `7XNN`: add NN to VX with 8-bit wraparound, no flag.
    fn execute_opcode_7(&mut self, opcode: u16)
        requires
            old(self).wf(),
        ensures
            final(self)@ == step7(old(self)@, opcode),
    {
        let x = x_of(opcode);
        let nn = nn_of(opcode);
        let sum = self.v_registers[x].wrapping_add(nn);
        self.v_registers.set(x, sum);
    }

    /// `8XY0..8XY7, 8XYE`: register-register ALU operations.
    fn execute_opcode_8(&mut self, opcode: u16)
        requires
            old(self).wf(),
        ensures
            final(self)@ == step8(old(self)@, opcode),
    {
        let last_nibble = opcode & 0x000F;
        let x = x_of(opcode);
        let y = y_of(opcode);
        let vx = self.v_registers[x];
        let vy = self.v_registers[y];
        match last_nibble {
            0x0 => {
                self.v_registers.set(x, vy);
            },
            0x1 => {
                self.v_registers.set(x, vx | vy);
                self.v_registers.set(0xF, 0);
            },
            0x2 => {
                self.v_registers.set(x, vx & vy);
                self.v_registers.set(0xF, 0);
            },
            0x3 => {
                self.v_registers.set(x, vx ^ vy);
                self.v_registers.set(0xF, 0);
            },
            0x4 => {
                self.v_registers.set(x, vx.wrapping_add(vy));
                let carry: u8 = if (vx as u16) + (vy as u16) > 255 {
                    1
                } else {
                    0
                };
                self.v_registers.set(0xF, carry);
            },
            0x5 => {
                self.v_registers.set(x, vx.wrapping_sub(vy));
                let no_borrow: u8 = if vx >= vy {
                    1
                } else {
                    0
                };
                self.v_registers.set(0xF, no_borrow);
            },
            0x6 => {
                self.v_registers.set(x, vx >> 1);
                self.v_registers.set(0xF, vx & 1);
            },
            0x7 => {
                self.v_registers.set(x, vy.wrapping_sub(vx));
                let no_borrow: u8 = if vy >= vx {
                    1
                } else {
                    0
                };
                self.v_registers.set(0xF, no_borrow);
            },
            0xE => {
                self.v_registers.set(x, vx << 1u8);
                self.v_registers.set(0xF, (vx >> 7u8) & 1);
            },
            _ => {
                let address = self.program_counter.wrapping_sub(2);
                self.core_error(ErrorKind::InvalidOpcode { opcode, address });
            },
        }
    }

    /// `DXYN`: XOR-draw an N-row sprite at (VX, VY) with wraparound; VF
    /// records a collision.
    fn execute_opcode_d(&mut self, opcode: u16)
        requires
            old(self).wf(),
        ensures
            final(self)@ == step_d(old(self)@, opcode),
    {
        let x = x_of(opcode);
        let y = y_of(opcode);
        let vx = self.v_registers[x];
        let vy = self.v_registers[y];
        proof {
            assert((opcode & 0x000F) < 16 && (opcode & 0x000F) == (opcode & 0xF)) by (bit_vector);
        }
        let n = (opcode & 0x000F) as usize;
        let i0 = self.i_register as usize;
        let ghost s0 = old(self)@;
        self.v_registers.set(0xF, 0);
        let mut row: usize = 0;
        while row < n
            invariant
                self.wf(),
                row <= n,
                n == op_n(opcode),
                n < 16,
                vx == s0.v[op_x(opcode)],
                vy == s0.v[op_y(opcode)],
                i0 == s0.i,
                s0.wf(),
                self@ == (MachineV {
                    fb: draw_fb(s0.fb, s0.memory, s0.i, vx, vy, (8 * row) as nat),
                    v: s0.v.update(
                        15,
                        if draw_hits(s0.fb, s0.memory, s0.i, vx, vy, (8 * row) as nat) {
                            1u8
                        } else {
                            0u8
                        },
                    ),
                    ..s0
                }),
            decreases n - row,
        {
            let byte = self.memory[(i0 + row) % MEMORY_SIZE];
            let mut col: usize = 0;
            while col < 8
                invariant
                    self.wf(),
                    col <= 8,
                    row < n,
                    n == op_n(opcode),
                    n < 16,
                    vx == s0.v[op_x(opcode)],
                    vy == s0.v[op_y(opcode)],
                    i0 == s0.i,
                    s0.wf(),
                    byte == s0.memory[(i0 + row) % (MEMORY_SIZE as int)],
                    self@ == (MachineV {
                        fb: draw_fb(s0.fb, s0.memory, s0.i, vx, vy, (8 * row + col) as nat),
                        v: s0.v.update(
                            15,
                            if draw_hits(s0.fb, s0.memory, s0.i, vx, vy, (8 * row + col) as nat) {
                                1u8
                            } else {
                                0u8
                            },
                        ),
                        ..s0
                    }),
                decreases 8 - col,
            {
                let ghost j = 8 * row + col;
                proof {
                    assert(j / 8 == row && j % 8 == col);
                }
                let sh: u8 = 7 - (col as u8);
                let bit_set = ((byte >> sh) & 1) == 1;
                proof {
                    assert(bit_set == sprite_bit(s0.memory, s0.i, j as int));
                }
                let px = (vx as usize + col) % BASE_WIDTH;
                let py = (vy as usize + row) % BASE_HEIGHT;
                let idx = py * BASE_WIDTH + px;
                proof {
                    assert(idx as int == target(vx, vy, j as int));
                    assert(idx < BASE_WIDTH * BASE_HEIGHT);
                }
                if bit_set {
                    let oldp = self.framebuffer[idx];
                    if oldp {
                        self.v_registers.set(0xF, 1);
                    }
                    self.framebuffer.set(idx, !oldp);
                }
                col = col + 1;
                proof {
                    assert(self@ =~~= (MachineV {
                        fb: draw_fb(s0.fb, s0.memory, s0.i, vx, vy, (8 * row + col) as nat),
                        v: s0.v.update(
                            15,
                            if draw_hits(s0.fb, s0.memory, s0.i, vx, vy, (8 * row + col) as nat) {
                                1u8
                            } else {
                                0u8
                            },
                        ),
                        ..s0
                    }));
                }
            }
            row = row + 1;
        }
        proof {
            assert(self@ =~~= step_d(s0, opcode));
        }
    }

    /// `FX07..FX65`: timers, polled key read, address-register arithmetic,
    /// font addressing, binary-coded decimal, and register block store/load.
    fn execute_opcode_f(&mut self, opcode: u16)
        requires
            old(self).wf(),
        ensures
            final(self)@ == step_f(old(self)@, opcode),
    {
        let lower_byte = nn_of(opcode);
        let x = x_of(opcode);
        match lower_byte {
            0x07 => {
                let d = self.delay_timer;
                self.v_registers.set(x, d);
            },
            0x0A => {
                match self.lowest_key_down() {
                    Some(key) => {
                        self.v_registers.set(x, key);
                    },
                    None => {
                        // No key is down yet: move back over this instruction
                        // so the poll repeats after the next command drain.
                        self.program_counter = self.program_counter.wrapping_sub(2);
                    },
                }
            },
            0x15 => {
                self.delay_timer = self.v_registers[x];
            },
            0x18 => {
                self.sound_timer = self.v_registers[x];
            },
            0x1E => {
                let vx = self.v_registers[x];
                self.i_register = self.i_register.wrapping_add(vx as u16);
            },
            0x29 => {
                let vx = self.v_registers[x];
                self.i_register = (vx as u16) * 5;
            },
            0x33 => {
                let vx = self.v_registers[x];
                let hundreds = vx / 100;
                let tens = (vx % 100) / 10;
                let ones = vx % 10;
                let i0 = self.i_register as usize;
                self.memory.set(i0 % MEMORY_SIZE, hundreds);
                self.memory.set((i0 + 1) % MEMORY_SIZE, tens);
                self.memory.set((i0 + 2) % MEMORY_SIZE, ones);
            },
            0x55 => {
                let i0 = self.i_register as usize;
                let mut r: usize = 0;
                while r <= x
                    invariant
                        self.wf(),
                        x < 16,
                        r <= x + 1,
                        i0 == old(self)@.i,
                        self@ == (MachineV {
                            memory: store_regs(
                                old(self)@.memory,
                                old(self)@.v,
                                old(self)@.i,
                                r as nat,
                            ),
                            ..old(self)@
                        }),
                    decreases x + 1 - r,
                {
                    let a = (i0 + r) % MEMORY_SIZE;
                    let value = self.v_registers[r];
                    self.memory.set(a, value);
                    r = r + 1;
                }
            },
            0x65 => {
                let i0 = self.i_register as usize;
                let mut r: usize = 0;
                while r <= x
                    invariant
                        self.wf(),
                        x < 16,
                        r <= x + 1,
                        i0 == old(self)@.i,
                        self@ == (MachineV {
                            v: load_regs(
                                old(self)@.memory,
                                old(self)@.v,
                                old(self)@.i,
                                r as nat,
                            ),
                            ..old(self)@
                        }),
                    decreases x + 1 - r,
                {
                    let a = (i0 + r) % MEMORY_SIZE;
                    let value = self.memory[a];
                    self.v_registers.set(r, value);
                    r = r + 1;
                }
            },
            _ => {
                let address = self.program_counter.wrapping_sub(2);
                self.core_error(ErrorKind::InvalidOpcode { opcode, address });
            },
        }
    }

    /// `9XY0`: skip the next instruction if VX differs from VY.
    fn execute_opcode_9(&mut self, opcode: u16)
        requires
            old(self).wf(),
        ensures
            final(self)@ == step9(old(self)@, opcode),
    {
        let last_nibble = opcode & 0x000F;
        if last_nibble != 0x0 {
            let address = self.program_counter.wrapping_sub(2);
            self.core_error(ErrorKind::InvalidOpcode { opcode, address });
        }
        let x = x_of(opcode);
        let y = y_of(opcode);
        if self.v_registers[x] != self.v_registers[y] {
            self.skip_opcode();
        }
    }

    /// `ANNN`: set the address register to NNN.
    fn execute_opcode_a(&mut self, opcode: u16)
        ensures
            final(self)@ == step_a(old(self)@, opcode),
    {
        let address = opcode & 0x0FFF;
        self.i_register = address;
    }

    /// Stores a byte drawn from outside into VX under the mask; verified for
    /// every value the draw may produce.
    fn apply_random(&mut self, x: usize, mask: u8, b: u8)
        requires
            old(self).wf(),
            x < 16,
        ensures
            final(self)@ == (MachineV { v: old(self)@.v.update(x as int, b & mask), ..old(self)@ }),
    {
        self.v_registers.set(x, b & mask);
    }

    /// `CXNN`: set VX to a random byte masked by NN.
    fn execute_opcode_c(&mut self, opcode: u16)
        requires
            old(self).wf(),
        ensures
            exists|rnd: u8| final(self)@ == step_c(old(self)@, opcode, rnd),
    {
        let x = x_of(opcode);
        let mask = nn_of(opcode);
        let b: u8 = rand::random();
        self.apply_random(x, mask, b);
        proof {
            assert(self@ == step_c(old(self)@, opcode, b));
        }
    }

    /// Whether the key numbered by `key` is down; values above 0xF name no
    /// key.
    fn is_key_down(&self, key: u8) -> (r: bool)
        ensures
            r == key_down(self@, key),
    {
        if key > 0xF {
            return false;
        }
        self.keys_down[key as usize]
    }

    /// `EX9E`/`EXA1`: skip depending on whether the key numbered by VX is
    /// down.
    fn execute_opcode_e(&mut self, opcode: u16)
        requires
            old(self).wf(),
        ensures
            final(self)@ == step_e(old(self)@, opcode),
    {
        let lower_byte = nn_of(opcode);
        let x = x_of(opcode);
        match lower_byte {
            0x9E => {
                let key = self.v_registers[x];
                if self.is_key_down(key) {
                    self.skip_opcode();
                }
            },
            0xA1 => {
                let key = self.v_registers[x];
                if !self.is_key_down(key) {
                    self.skip_opcode();
                }
            },
            _ => {
                let address = self.program_counter.wrapping_sub(2);
                self.core_error(ErrorKind::InvalidOpcode { opcode, address });
            },
        }
    }

    /// The lowest-numbered key that is down, if any.
    fn lowest_key_down(&self) -> (r: Option<u8>)
        ensures
            r == first_key(self@.keys),
    {
        let mut k: usize = 0;
        while k < 16
            invariant
                k <= 16,
                first_key(self@.keys) == first_key_from(self@.keys, k as int),
            decreases 16 - k,
        {
            if self.keys_down[k] {
                return Some(k as u8);
            }
            k = k + 1;
        }
        None
    }

    /// `BNNN`: jump to address NNN plus V0.
    fn execute_opcode_b(&mut self, opcode: u16)
        requires
            old(self).wf(),
        ensures
            final(self)@ == step_b(old(self)@, opcode),
    {
        let address = opcode & 0x0FFF;
        proof {
            assert((opcode & 0x0FFF) <= 0xFFF) by (bit_vector);
        }
        self.program_counter = self.v_registers[0] as u16 + address;
    }
}

} // verus!
