//! The frame scheduler: drains pending commands, executes a batch of
//! instructions while running, advances the timers, publishes snapshots and
//! paces itself against a 60 Hz target with drift compensation.
//!
//! The decisions are all here as verified functions of the machine state;
//! `Core::run_frame` strings one iteration together around the channels and
//! the clock, and the owning thread loops it until an exit is requested.
use vstd::prelude::*;

use crate::dispatch::step;
use crate::machine::{CoreState, ErrorKind, ErrorV, Event, EventV, MachineV, MAX_ROM_SIZE,
    MEMORY_SIZE, PROGRAM_START};

verus! {

/// Whether the machine has reached a terminal condition: an error was
/// recorded or an exit was requested. No further instruction runs past it.
pub open spec fn halted(s: MachineV) -> bool {
    s.error is Some || s.exit_requested
}

/// Whether the next frame executes instructions: the machine is not halted
/// and is either running or was asked to step one frame.
pub open spec fn active(s: MachineV) -> bool {
    !halted(s) && (s.running || s.step_frame)
}

/// A ROM load: the bytes are stored at `PROGRAM_START` and the metadata is
/// recorded, or the machine is left untouched but for the error that says
/// why. `RomTooLarge` rejects anything over `MAX_ROM_SIZE` bytes;
/// `InvalidRom` records a failed read.
pub open spec fn load_game_spec(
    s: MachineV,
    path: Seq<char>,
    name: Seq<char>,
    data: Result<Seq<u8>, Seq<char>>,
) -> MachineV {
    match data {
        Err(e) => crate::dispatch::with_error(
            s,
            ErrorV::InvalidRom { path: path, specific_error: e },
        ),
        Ok(rom) => if rom.len() > MAX_ROM_SIZE {
            crate::dispatch::with_error(
                s,
                ErrorV::RomTooLarge {
                    path: path,
                    size: rom.len() as usize,
                    allowed: MAX_ROM_SIZE,
                },
            )
        } else {
            MachineV {
                memory: Seq::new(
                    MEMORY_SIZE as nat,
                    |a: int|
                        if PROGRAM_START <= a < PROGRAM_START + rom.len() {
                            rom[a - PROGRAM_START]
                        } else {
                            s.memory[a]
                        },
                ),
                rom_name: Some(name),
                rom_size: Some(rom.len() as usize),
                ..s
            }
        },
    }
}

/// What one command does to the machine.
pub open spec fn apply_event_spec(s: MachineV, e: EventV) -> MachineV {
    match e {
        EventV::ChangeRunning(r) => MachineV { running: r, ..s },
        EventV::StepFrame => MachineV { step_frame: true, ..s },
        EventV::LoadRom { path, name, data } => load_game_spec(s, path, name, data),
        EventV::ChangeOpcodesPerFrame(n) => MachineV { opf: n, ..s },
        EventV::KeysDown(ks) => MachineV { keys: ks, ..s },
        EventV::Exit => MachineV { running: false, exit_requested: true, ..s },
    }
}

/// Each timer decrements by at most one per frame, floored at zero.
pub open spec fn tick_timers(s: MachineV) -> MachineV {
    MachineV {
        delay: if s.delay > 0 {
            (s.delay - 1) as u8
        } else {
            0
        },
        sound: if s.sound > 0 {
            (s.sound - 1) as u8
        } else {
            0
        },
        ..s
    }
}

/// The machine after the first `m` instructions of a batch, the `j`-th drawing
/// random byte `rnds[j]`.
pub open spec fn batch_run(s: MachineV, rnds: Seq<u8>, m: nat) -> MachineV
    decreases m,
{
    if m == 0 {
        s
    } else {
        step(batch_run(s, rnds, (m - 1) as nat), rnds[m - 1])
    }
}

/// A batch of `k` instructions stops early only at a terminal condition:
/// `m` instructions ran, none hitting a terminal state beforehand, and either
/// the batch completed or the last instruction halted the machine.
pub open spec fn batch_stops(s: MachineV, rnds: Seq<u8>, m: nat, k: nat) -> bool {
    &&& m <= k
    &&& forall|j: nat| j < m ==> !halted(#[trigger] batch_run(s, rnds, j))
    &&& (m == k || halted(batch_run(s, rnds, m)))
}

/// The bookkeeping that closes a frame: timers tick, the frame counter
/// advances, and the one-shot stepping flag clears.
pub open spec fn finish_frame(s: MachineV) -> MachineV {
    MachineV {
        step_frame: false,
        current_frame: s.current_frame.wrapping_add(1),
        ..tick_timers(s)
    }
}

/// A batch of instructions never reaches the scheduler's own bookkeeping.
pub proof fn lemma_batch_scheduler_fields(s: MachineV, rnds: Seq<u8>, m: nat)
    ensures
        batch_run(s, rnds, m).running == s.running,
        batch_run(s, rnds, m).step_frame == s.step_frame,
        batch_run(s, rnds, m).exit_requested == s.exit_requested,
        batch_run(s, rnds, m).opf == s.opf,
        batch_run(s, rnds, m).current_frame == s.current_frame,
        batch_run(s, rnds, m).rom_name == s.rom_name,
        batch_run(s, rnds, m).rom_size == s.rom_size,
        batch_run(s, rnds, m).keys == s.keys,
    decreases m,
{
    if m > 0 {
        lemma_batch_scheduler_fields(s, rnds, (m - 1) as nat);
        crate::dispatch::lemma_step_scheduler_fields(batch_run(s, rnds, (m - 1) as nat), rnds[m - 1]);
    }
}

/// A batch only reads the prefix of the random bytes it consumes.
pub proof fn lemma_batch_prefix(s: MachineV, r1: Seq<u8>, r2: Seq<u8>, m: nat)
    requires
        forall|j: int| 0 <= j < m ==> r1[j] == r2[j],
    ensures
        batch_run(s, r1, m) == batch_run(s, r2, m),
    decreases m,
{
    if m > 0 {
        lemma_batch_prefix(s, r1, r2, (m - 1) as nat);
    }
}

/// Target frame interval: 1000/60 milliseconds, in microseconds.
pub const FRAME_MICROS: i64 = 16666;

/// Bound on every measured or carried time span, in microseconds. Spans
/// handed in by the clock are clamped here so the pacing arithmetic can
/// never overflow.
pub const TIME_CLAMP_MICROS: i64 = 1000000000;

/// A time span clamped into the range the pacing arithmetic works in.
pub open spec fn clamp_span(x: int) -> int {
    if x > TIME_CLAMP_MICROS {
        TIME_CLAMP_MICROS as int
    } else if x < -TIME_CLAMP_MICROS {
        -TIME_CLAMP_MICROS as int
    } else {
        x
    }
}

/// How long the frame still has to sleep: the target interval less the time
/// the work took, corrected by the carried error of the previous sleep.
pub open spec fn sleep_needed(elapsed: int, carry: int) -> int {
    FRAME_MICROS - elapsed + carry
}

/// The carried error after a sleep: how much of the requested sleep the
/// sleeper failed to deliver (negative when it overslept). A frame with no
/// sleep budget resets the error.
pub open spec fn next_sleep_error(needed: int, slept: int) -> int {
    if needed > 0 {
        clamp_span(needed - slept)
    } else {
        0
    }
}

/// The machine after a sequence of commands, applied in order.
pub open spec fn apply_events(s: MachineV, evs: Seq<EventV>) -> MachineV
    decreases evs.len(),
{
    if evs.len() == 0 {
        s
    } else {
        apply_event_spec(apply_events(s, evs.drop_last()), evs.last())
    }
}

/// The machine with the frame instrumentation written: the measured times
/// while running, zero while not.
pub open spec fn with_timing(s: MachineV, work: u64, with_sleep: u64) -> MachineV {
    MachineV {
        frame_micros: if s.running {
            work
        } else {
            0
        },
        frame_micros_with_sleep: if s.running {
            with_sleep
        } else {
            0
        },
        ..s
    }
}

/// One scheduler iteration, witnessed: the commands `evs` were drained and
/// applied in order; if that left the machine active, a batch ran and the
/// frame was closed; and the instrumentation was written last.
pub open spec fn scheduler_iter(
    pre: MachineV,
    post: MachineV,
    evs: Seq<EventV>,
    rnds: Seq<u8>,
    m: nat,
    work: u64,
    with_sleep: u64,
) -> bool {
    let s1 = apply_events(pre, evs);
    if active(s1) {
        batch_stops(s1, rnds, m, s1.opf as nat) && post == with_timing(
            finish_frame(batch_run(s1, rnds, m)),
            work,
            with_sleep,
        )
    } else {
        post == with_timing(s1, work, with_sleep)
    }
}

/// One scheduler iteration: what `Core::run_frame` does to the machine, for
/// some drained command sequence, some random bytes and some measured times.
pub open spec fn scheduler_rel(pre: MachineV, post: MachineV) -> bool {
    exists|evs: Seq<EventV>, rnds: Seq<u8>, m: nat, work: u64, with_sleep: u64|
        scheduler_iter(pre, post, evs, rnds, m, work, with_sleep)
}

impl CoreState {
    /// Whether a terminal condition was reached: an error was recorded or an
    /// exit was requested.
    pub fn should_exit(&self) -> (r: bool)
        ensures
            r == halted(self@),
    {
        self.error.is_some() || self.exit_requested
    }

    /// Stores ROM bytes at `PROGRAM_START` and records the metadata, or
    /// records why the load failed without touching anything else.
    pub fn load_game(&mut self, rom: crate::machine::RomFile)
        requires
            old(self).wf(),
        ensures
            final(self)@ == load_game_spec(
                old(self)@,
                rom.path@,
                rom.name@,
                match rom.data {
                    Ok(bytes) => Ok(bytes@),
                    Err(e) => Err(e@),
                },
            ),
            final(self).wf(),
    {
        let ghost s0 = old(self)@;
        match rom.data {
            Err(e) => {
                self.core_error(ErrorKind::InvalidRom { path: rom.path, specific_error: e });
            },
            Ok(bytes) => {
                if bytes.len() > MAX_ROM_SIZE {
                    self.core_error(ErrorKind::RomTooLarge {
                        path: rom.path,
                        size: bytes.len(),
                        allowed: MAX_ROM_SIZE,
                    });
                } else {
                    let len = bytes.len();
                    let mut k: usize = 0;
                    while k < len
                        invariant
                            self.wf(),
                            s0.wf(),
                            k <= len,
                            len == bytes@.len(),
                            len <= MAX_ROM_SIZE,
                            self@ == (MachineV {
                                memory: Seq::new(
                                    MEMORY_SIZE as nat,
                                    |a: int|
                                        if PROGRAM_START <= a < PROGRAM_START + k {
                                            bytes@[a - PROGRAM_START]
                                        } else {
                                            s0.memory[a]
                                        },
                                ),
                                ..s0
                            }),
                        decreases len - k,
                    {
                        self.memory.set(PROGRAM_START + k, bytes[k]);
                        k = k + 1;
                        proof {
                            assert(self@ =~~= (MachineV {
                                memory: Seq::new(
                                    MEMORY_SIZE as nat,
                                    |a: int|
                                        if PROGRAM_START <= a < PROGRAM_START + k {
                                            bytes@[a - PROGRAM_START]
                                        } else {
                                            s0.memory[a]
                                        },
                                ),
                                ..s0
                            }));
                        }
                    }
                    self.rom_name = Some(rom.name);
                    self.rom_size = Some(len);
                    proof {
                        assert(self@ =~~= load_game_spec(s0, rom.path@, rom.name@, Ok(bytes@)));
                    }
                }
            },
        }
    }

    /// Applies one command.
    pub fn apply_event(&mut self, event: Event)
        requires
            old(self).wf(),
        ensures
            final(self)@ == apply_event_spec(old(self)@, event@),
            final(self).wf(),
    {
        match event {
            Event::ChangeRunning(running) => {
                self.running = running;
            },
            Event::StepFrame => {
                self.step_frame = true;
            },
            Event::LoadRom(rom) => {
                self.load_game(rom);
            },
            Event::ChangeOpcodesPerFrame(opcodes_per_frame) => {
                self.opcodes_per_frame = opcodes_per_frame;
            },
            Event::KeysDown(keys) => {
                self.keys_down = keys;
            },
            Event::Exit => {
                self.running = false;
                self.exit_requested = true;
            },
        }
    }

    /// Each timer decrements by at most one per frame, floored at zero.
    pub fn update_timers(&mut self)
        ensures
            final(self)@ == tick_timers(old(self)@),
    {
        if self.delay_timer > 0 {
            self.delay_timer = self.delay_timer - 1;
        }
        if self.sound_timer > 0 {
            self.sound_timer = self.sound_timer - 1;
        }
    }

    /// One frame: if active, executes `opcodes_per_frame` instructions —
    /// stopping early only at a terminal condition — then ticks the timers,
    /// advances the frame counter and clears the one-shot stepping flag. A
    /// halted or idle machine is left exactly as it was.
    #[verifier::rlimit(100)]
    pub fn frame_tick(&mut self)
        requires
            old(self).wf(),
        ensures
            final(self).wf(),
            !active(old(self)@) ==> final(self)@ == old(self)@,
            active(old(self)@) ==> exists|rnds: Seq<u8>, m: nat|
                batch_stops(old(self)@, rnds, m, old(self)@.opf as nat) && final(self)@
                    == finish_frame(batch_run(old(self)@, rnds, m)),
            active(old(self)@) ==> ({
                &&& final(self)@.running == old(self)@.running
                &&& !final(self)@.step_frame
                &&& final(self)@.exit_requested == old(self)@.exit_requested
                &&& final(self)@.opf == old(self)@.opf
                &&& final(self)@.current_frame == old(self)@.current_frame.wrapping_add(1)
                &&& final(self)@.rom_name == old(self)@.rom_name
                &&& final(self)@.rom_size == old(self)@.rom_size
                &&& final(self)@.keys == old(self)@.keys
            }),
    {
        if self.should_exit() {
            return ;
        }
        if !(self.running || self.step_frame) {
            return ;
        }
        let ghost s0 = self@;
        let k = self.opcodes_per_frame;
        let ghost mut rnds: Seq<u8> = Seq::empty();
        let ghost mut m: nat = 0;
        let mut n: u32 = 0;
        let mut stopped = false;
        while n < k && !stopped
            invariant
                self.wf(),
                s0.wf(),
                k == s0.opf,
                n <= k,
                rnds.len() == n,
                m == n,
                forall|j: nat| j < m ==> !halted(#[trigger] batch_run(s0, rnds, j)),
                self@ == batch_run(s0, rnds, m),
                stopped ==> halted(self@),
                !halted(s0),
            decreases k - n + (if stopped { 0int } else { 1int }),
        {
            if self.should_exit() {
                stopped = true;
            } else {
                self.execute_opcode();
                proof {
                    let r = choose|r: u8| self@ == step(batch_run(s0, rnds, m), r);
                    let rnds2 = rnds.push(r);
                    lemma_batch_prefix(s0, rnds, rnds2, m);
                    assert forall|j: nat| j < m + 1 implies !halted(
                        #[trigger] batch_run(s0, rnds2, j),
                    ) by {
                        lemma_batch_prefix(s0, rnds, rnds2, j);
                    }
                    rnds = rnds2;
                    m = m + 1;
                    assert(self@ == batch_run(s0, rnds, m));
                }
                n = n + 1;
            }
        }
        proof {
            if stopped {
            } else {
                assert(m == k);
            }
            assert(batch_stops(s0, rnds, m, k as nat));
        }
        self.update_timers();
        self.current_frame = self.current_frame.wrapping_add(1);
        self.step_frame = false;
        proof {
            assert(self@ == finish_frame(batch_run(s0, rnds, m)));
            lemma_batch_scheduler_fields(s0, rnds, m);
        }
    }
}

/// The frame scheduler: owns the machine state, drains the command queue,
/// paces execution at 60 Hz and publishes snapshots through the single-slot
/// channel. One `Core` is driven by one dedicated thread.
pub struct Core {
    pub state: CoreState,
    /// Carried sleep error for drift compensation, in microseconds.
    pub sleep_error_micros: i64,
    pub state_updater: single_value_channel::Updater<CoreState>,
    pub events: crossbeam_channel::Receiver<Event>,
}

impl Core {
    /// A well-formed scheduler: well-formed machine, bounded carried error.
    pub open spec fn wf(&self) -> bool {
        &&& self.state.wf()
        &&& -TIME_CLAMP_MICROS <= self.sleep_error_micros <= TIME_CLAMP_MICROS
    }

    /// A fresh scheduler around a fresh machine, wired to the command queue
    /// it drains and the snapshot slot it publishes to.
    pub fn new(
        events: crossbeam_channel::Receiver<Event>,
        state_updater: single_value_channel::Updater<CoreState>,
    ) -> (c: Core)
        ensures
            c.state@ == crate::machine::initial_machine(),
            c.sleep_error_micros == 0,
            c.wf(),
    {
        let state = CoreState::new();
        Core { state, sleep_error_micros: 0, state_updater, events }
    }

    /// Publishes a snapshot of the machine. Best-effort: a consumer that has
    /// gone away is a controller bug, and the scheduler never blocks or
    /// fails on its account.
    fn update_gui(&self) {
        let snapshot = self.state.clone();
        let _delivered = crate::runtime::publish(&self.state_updater, snapshot);
    }

    /// Drains pending commands without blocking and applies each in arrival
    /// order. The drain is capped per frame so one frame stays bounded;
    /// producers are UI-paced, far below the cap.
    pub fn handle_events(&mut self) -> (handled: bool)
        requires
            old(self).wf(),
        ensures
            final(self).wf(),
            final(self).sleep_error_micros == old(self).sleep_error_micros,
            exists|evs: Seq<EventV>|
                final(self).state@ == apply_events(old(self).state@, evs) && (handled <==> evs.len()
                    > 0),
    {
        let ghost s0 = self.state@;
        let ghost mut evs: Seq<EventV> = Seq::empty();
        let mut handled = false;
        let mut budget: u32 = 1024;
        while budget > 0
            invariant
                self.wf(),
                self.sleep_error_micros == old(self).sleep_error_micros,
                self.state@ == apply_events(s0, evs),
                handled <==> evs.len() > 0,
            decreases budget,
        {
            match crate::runtime::try_next(&self.events) {
                None => {
                    break ;
                },
                Some(event) => {
                    proof {
                        assert(evs.push(event@).drop_last() =~= evs);
                    }
                    let ghost evs2 = evs.push(event@);
                    self.state.apply_event(event);
                    proof {
                        evs = evs2;
                    }
                    handled = true;
                    budget = budget - 1;
                },
            }
        }
        handled
    }

    /// Sleeps whatever is left of the frame's time budget, then records how
    /// far the sleep missed as the carried error of the next frame; a frame
    /// with no budget left resets the error.
    fn limit_speed(&mut self, elapsed_micros: u64)
        requires
            old(self).wf(),
        ensures
            final(self).wf(),
            final(self).state == old(self).state,
            ({
                let needed = sleep_needed(
                    clamp_span(elapsed_micros as int),
                    old(self).sleep_error_micros as int,
                );
                needed <= 0 ==> final(self).sleep_error_micros == 0
            }),
            ({
                let needed = sleep_needed(
                    clamp_span(elapsed_micros as int),
                    old(self).sleep_error_micros as int,
                );
                needed > 0 ==> exists|slept: int|
                    0 <= slept <= TIME_CLAMP_MICROS && final(self).sleep_error_micros
                        == next_sleep_error(needed, slept)
            }),
    {
        let elapsed: i64 = if elapsed_micros > 1000000000 {
            1000000000
        } else {
            elapsed_micros as i64
        };
        let needed: i64 = FRAME_MICROS - elapsed + self.sleep_error_micros;
        if needed > 0 {
            let before = crate::runtime::instant_now();
            crate::runtime::sleep_micros(needed as u64);
            let slept_raw = crate::runtime::elapsed_micros(&before);
            let slept: i64 = if slept_raw > 1000000000 {
                1000000000
            } else {
                slept_raw as i64
            };
            let mut err: i64 = needed - slept;
            if err > 1000000000 {
                err = 1000000000;
            }
            if err < -1000000000 {
                err = -1000000000;
            }
            self.sleep_error_micros = err;
            proof {
                assert(self.sleep_error_micros == next_sleep_error(
                    needed as int,
                    slept as int,
                ));
            }
        } else {
            self.sleep_error_micros = 0;
        }
    }

    /// One scheduler iteration: drain and apply commands, run one frame if
    /// active, publish, and sleep out the 60 Hz budget with drift
    /// compensation. Returns whether the loop shall continue; an exit
    /// request ends it, an error only idles it.
    pub fn run_frame(&mut self) -> (cont: bool)
        requires
            old(self).wf(),
        ensures
            final(self).wf(),
            old(self).state@.exit_requested ==> !cont && final(self).state == old(self).state,
            !old(self).state@.exit_requested ==> cont && scheduler_rel(
                old(self).state@,
                final(self).state@,
            ),
    {
        if self.state.exit_requested {
            return false;
        }
        let ghost s0 = self.state@;
        let start = crate::runtime::instant_now();
        let handled = self.handle_events();
        if handled {
            self.update_gui();
        }
        let ghost s1 = self.state@;
        let act = !self.state.should_exit() && (self.state.running || self.state.step_frame);
        self.state.frame_tick();
        let ghost s2 = self.state@;
        if act {
            self.update_gui();
        }
        let work = crate::runtime::elapsed_micros(&start);
        self.limit_speed(work);
        let with_sleep = crate::runtime::elapsed_micros(&start);
        if self.state.running {
            self.state.actual_frame_time_micros = work;
            self.state.frame_time_with_sleep_micros = with_sleep;
        } else {
            self.state.actual_frame_time_micros = 0;
            self.state.frame_time_with_sleep_micros = 0;
        }
        proof {
            let evs = choose|evs: Seq<EventV>|
                s1 == apply_events(s0, evs) && (handled <==> evs.len() > 0);
            assert(self.state@ =~~= with_timing(s2, work, with_sleep));
            if active(s1) {
                let (rnds, m) = choose|rnds: Seq<u8>, m: nat|
                    batch_stops(s1, rnds, m, s1.opf as nat) && s2 == finish_frame(
                        batch_run(s1, rnds, m),
                    );
                assert(scheduler_iter(s0, self.state@, evs, rnds, m, work, with_sleep));
            } else {
                assert(scheduler_iter(s0, self.state@, evs, Seq::empty(), 0, work, with_sleep));
            }
        }
        true
    }
}

} // verus!
