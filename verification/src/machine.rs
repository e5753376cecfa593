//! The machine state of an 8-bit "CHIP-8"-class virtual machine: memory,
//! register file, call stack, timers, framebuffer and control flags, together
//! with its mathematical view and the built-in font that every fresh machine
//! carries in its low memory.
use vstd::prelude::*;

verus! {

/// Bytes of addressable memory; the low 512 are reserved for the interpreter.
pub const MEMORY_SIZE: usize = 4096;

/// First address available to program bytes.
pub const PROGRAM_START: usize = 512;

/// Largest ROM that fits between `PROGRAM_START` and the end of memory.
pub const MAX_ROM_SIZE: usize = 3584;

/// Framebuffer width in pixels.
pub const BASE_WIDTH: usize = 64;

/// Framebuffer height in pixels.
pub const BASE_HEIGHT: usize = 32;

/// Instructions executed per frame on a fresh machine.
pub const DEFAULT_OPCODES_PER_FRAME: u32 = 20;

/// A terminal error condition. Once set, the scheduler stops executing
/// instructions but keeps servicing commands and publishing state.
#[derive(Clone)]
pub enum ErrorKind {
    /// The decoder found no matching instruction pattern.
    InvalidOpcode { opcode: u16, address: u16 },
    /// A return was executed with an empty call stack.
    InvalidReturn { address: u16 },
    /// The requested ROM exceeds `MAX_ROM_SIZE` bytes.
    RomTooLarge { path: String, size: usize, allowed: usize },
    /// The ROM could not be read at all.
    InvalidRom { path: String, specific_error: String },
}

/// Mathematical view of an `ErrorKind`.
#[verifier::ext_equal]
pub ghost enum ErrorV {
    InvalidOpcode { opcode: u16, address: u16 },
    InvalidReturn { address: u16 },
    RomTooLarge { path: Seq<char>, size: usize, allowed: usize },
    InvalidRom { path: Seq<char>, specific_error: Seq<char> },
}

impl View for ErrorKind {
    type V = ErrorV;

    open spec fn view(&self) -> ErrorV {
        match self {
            ErrorKind::InvalidOpcode { opcode, address } => (ErrorV::InvalidOpcode {
                opcode: *opcode,
                address: *address,
            }),
            ErrorKind::InvalidReturn { address } => (ErrorV::InvalidReturn { address: *address }),
            ErrorKind::RomTooLarge { path, size, allowed } => (ErrorV::RomTooLarge {
                path: path@,
                size: *size,
                allowed: *allowed,
            }),
            ErrorKind::InvalidRom { path, specific_error } => (ErrorV::InvalidRom {
                path: path@,
                specific_error: specific_error@,
            }),
        }
    }
}

/// The contents of a ROM file as handed to the machine: where it came from,
/// the display name recorded as metadata, and either the bytes read or the
/// message of the failed read.
pub struct RomFile {
    pub path: String,
    pub name: String,
    pub data: Result<Vec<u8>, String>,
}

/// A control command, delivered to the scheduler over the command queue.
pub enum Event {
    /// Start or stop continuous execution.
    ChangeRunning(bool),
    /// Execute a single frame while not running.
    StepFrame,
    /// Load a ROM whose bytes the controller has already read.
    LoadRom(RomFile),
    /// Change how many instructions one frame executes.
    ChangeOpcodesPerFrame(u32),
    /// Replace the state of the sixteen logical keys.
    KeysDown([bool; 16]),
    /// Terminate the scheduler loop.
    Exit,
}

/// Mathematical view of an `Event`.
#[verifier::ext_equal]
pub ghost enum EventV {
    ChangeRunning(bool),
    StepFrame,
    LoadRom { path: Seq<char>, name: Seq<char>, data: Result<Seq<u8>, Seq<char>> },
    ChangeOpcodesPerFrame(u32),
    KeysDown(Seq<bool>),
    Exit,
}

impl View for Event {
    type V = EventV;

    open spec fn view(&self) -> EventV {
        match self {
            Event::ChangeRunning(r) => EventV::ChangeRunning(*r),
            Event::StepFrame => EventV::StepFrame,
            Event::LoadRom(rom) => (EventV::LoadRom {
                path: rom.path@,
                name: rom.name@,
                data: match &rom.data {
                    Ok(bytes) => Ok(bytes@),
                    Err(e) => Err(e@),
                },
            }),
            Event::ChangeOpcodesPerFrame(n) => EventV::ChangeOpcodesPerFrame(*n),
            Event::KeysDown(ks) => EventV::KeysDown(ks@),
            Event::Exit => EventV::Exit,
        }
    }
}

/// Mathematical view of the whole machine.
#[verifier::ext_equal]
pub ghost struct MachineV {
    pub memory: Seq<u8>,
    pub v: Seq<u8>,
    pub i: u16,
    pub pc: u16,
    pub stack: Seq<u16>,
    pub delay: u8,
    pub sound: u8,
    pub fb: Seq<bool>,
    pub keys: Seq<bool>,
    pub rom_name: Option<Seq<char>>,
    pub rom_size: Option<usize>,
    pub opf: u32,
    pub running: bool,
    pub step_frame: bool,
    pub exit_requested: bool,
    pub error: Option<ErrorV>,
    pub current_frame: u32,
    pub frame_micros: u64,
    pub frame_micros_with_sleep: u64,
}

impl MachineV {
    /// The dimensions every reachable machine keeps.
    pub open spec fn wf(self) -> bool {
        &&& self.memory.len() == MEMORY_SIZE
        &&& self.v.len() == 16
        &&& self.fb.len() == BASE_WIDTH * BASE_HEIGHT
        &&& self.keys.len() == 16
    }
}

/// The machine state: single owner is the scheduler thread; read-only copies
/// escape through the published snapshot.
#[derive(Clone)]
pub struct CoreState {
    /// Binary pixel grid, row-major, `BASE_WIDTH * BASE_HEIGHT` entries.
    pub framebuffer: Vec<bool>,
    pub current_frame: u32,
    /// Time the work of the last running frame took, in microseconds.
    pub actual_frame_time_micros: u64,
    /// Time the last running frame took including its sleep, in microseconds.
    pub frame_time_with_sleep_micros: u64,
    pub running: bool,
    pub step_frame: bool,
    pub error: Option<ErrorKind>,
    pub memory: Vec<u8>,
    /// V0-VF; VF doubles as the carry/borrow/collision flag.
    pub v_registers: Vec<u8>,
    /// Address register; effectively 12 significant bits.
    pub i_register: u16,
    pub program_counter: u16,
    pub call_stack: Vec<u16>,
    pub delay_timer: u8,
    pub sound_timer: u8,
    /// Pressed-state of the sixteen logical keys, supplied by the controller.
    pub keys_down: [bool; 16],
    pub rom_name: Option<String>,
    pub rom_size: Option<usize>,
    pub opcodes_per_frame: u32,
    pub exit_requested: bool,
}

impl View for CoreState {
    type V = MachineV;

    open spec fn view(&self) -> MachineV {
        MachineV {
            memory: self.memory@,
            v: self.v_registers@,
            i: self.i_register,
            pc: self.program_counter,
            stack: self.call_stack@,
            delay: self.delay_timer,
            sound: self.sound_timer,
            fb: self.framebuffer@,
            keys: self.keys_down@,
            rom_name: match &self.rom_name {
                Some(n) => Some(n@),
                None => None,
            },
            rom_size: self.rom_size,
            opf: self.opcodes_per_frame,
            running: self.running,
            step_frame: self.step_frame,
            exit_requested: self.exit_requested,
            error: match &self.error {
                Some(e) => Some(e@),
                None => None,
            },
            current_frame: self.current_frame,
            frame_micros: self.actual_frame_time_micros,
            frame_micros_with_sleep: self.frame_time_with_sleep_micros,
        }
    }
}

impl CoreState {
    /// The dimensions every reachable machine keeps.
    pub open spec fn wf(&self) -> bool {
        self@.wf()
    }
}

/// The built-in font: sixteen glyphs of five rows each, kept at the bottom of
/// memory on every machine.
pub open spec fn font_seq() -> Seq<u8> {
    seq![
        0x60u8, 0xD0, 0x90, 0xB0, 0x60, // 0
        0x20, 0x60, 0x20, 0x20, 0x70, // 1
        0x60, 0x90, 0x20, 0x40, 0xF0, // 2
        0x60, 0x90, 0x20, 0x90, 0x60, // 3
        0x20, 0x60, 0xA0, 0xF0, 0x20, // 4
        0xF0, 0x80, 0xE0, 0x10, 0xE0, // 5
        0x60, 0x80, 0xE0, 0x90, 0x60, // 6
        0xF0, 0x10, 0x20, 0x40, 0x40, // 7
        0x60, 0x90, 0x60, 0x90, 0x60, // 8
        0x60, 0x90, 0x70, 0x10, 0x60, // 9
        0x60, 0x90, 0xF0, 0x90, 0x90, // A
        0xE0, 0x90, 0xE0, 0x90, 0xE0, // B
        0x60, 0x80, 0x80, 0x80, 0x60, // C
        0xE0, 0x90, 0x90, 0x90, 0xE0, // D
        0xF0, 0x80, 0xE0, 0x80, 0xF0, // E
        0xF0, 0x80, 0xE0, 0x80, 0x80, // F
    ]
}

/// The state of a machine as engine construction leaves it: font in low
/// memory, program counter at `PROGRAM_START`, everything else cleared.
pub open spec fn initial_machine() -> MachineV {
    MachineV {
        memory: Seq::new(
            MEMORY_SIZE as nat,
            |a: int| if a < font_seq().len() { font_seq()[a] } else { 0u8 },
        ),
        v: Seq::new(16, |r: int| 0u8),
        i: 0,
        pc: PROGRAM_START as u16,
        stack: Seq::empty(),
        delay: 0,
        sound: 0,
        fb: Seq::new((BASE_WIDTH * BASE_HEIGHT) as nat, |p: int| false),
        keys: Seq::new(16, |k: int| false),
        rom_name: None,
        rom_size: None,
        opf: DEFAULT_OPCODES_PER_FRAME,
        running: false,
        step_frame: false,
        exit_requested: false,
        error: None,
        current_frame: 0,
        frame_micros: 0,
        frame_micros_with_sleep: 0,
    }
}

/// The font as an executable value.
fn font() -> (f: Vec<u8>)
    ensures
        f@ == font_seq(),
{
    let mut f: Vec<u8> = Vec::new();
    f.push(0x60);
    f.push(0xD0);
    f.push(0x90);
    f.push(0xB0);
    f.push(0x60);
    f.push(0x20);
    f.push(0x60);
    f.push(0x20);
    f.push(0x20);
    f.push(0x70);
    f.push(0x60);
    f.push(0x90);
    f.push(0x20);
    f.push(0x40);
    f.push(0xF0);
    f.push(0x60);
    f.push(0x90);
    f.push(0x20);
    f.push(0x90);
    f.push(0x60);
    f.push(0x20);
    f.push(0x60);
    f.push(0xA0);
    f.push(0xF0);
    f.push(0x20);
    f.push(0xF0);
    f.push(0x80);
    f.push(0xE0);
    f.push(0x10);
    f.push(0xE0);
    f.push(0x60);
    f.push(0x80);
    f.push(0xE0);
    f.push(0x90);
    f.push(0x60);
    f.push(0xF0);
    f.push(0x10);
    f.push(0x20);
    f.push(0x40);
    f.push(0x40);
    f.push(0x60);
    f.push(0x90);
    f.push(0x60);
    f.push(0x90);
    f.push(0x60);
    f.push(0x60);
    f.push(0x90);
    f.push(0x70);
    f.push(0x10);
    f.push(0x60);
    f.push(0x60);
    f.push(0x90);
    f.push(0xF0);
    f.push(0x90);
    f.push(0x90);
    f.push(0xE0);
    f.push(0x90);
    f.push(0xE0);
    f.push(0x90);
    f.push(0xE0);
    f.push(0x60);
    f.push(0x80);
    f.push(0x80);
    f.push(0x80);
    f.push(0x60);
    f.push(0xE0);
    f.push(0x90);
    f.push(0x90);
    f.push(0x90);
    f.push(0xE0);
    f.push(0xF0);
    f.push(0x80);
    f.push(0xE0);
    f.push(0x80);
    f.push(0xF0);
    f.push(0xF0);
    f.push(0x80);
    f.push(0xE0);
    f.push(0x80);
    f.push(0x80);
    proof {
        assert(f@ =~= font_seq());
    }
    f
}

/// A vector holding `n` copies of `value`.
pub fn filled<T: Copy>(value: T, n: usize) -> (v: Vec<T>)
    ensures
        v@ == Seq::new(n as nat, |x: int| value),
{
    let mut v: Vec<T> = Vec::new();
    let mut k: usize = 0;
    while k < n
        invariant
            k <= n,
            v@ =~= Seq::new(k as nat, |x: int| value),
        decreases n - k,
    {
        v.push(value);
        k = k + 1;
    }
    proof {
        assert(v@ =~= Seq::new(n as nat, |x: int| value));
    }
    v
}

impl CoreState {
    /// Loads the built-in font into the bottom of memory.
    fn load_font(&mut self)
        requires
            old(self).wf(),
        ensures
            final(self)@ == (MachineV {
                memory: Seq::new(
                    MEMORY_SIZE as nat,
                    |a: int| if a < font_seq().len() { font_seq()[a] } else { old(self)@.memory[a] },
                ),
                ..old(self)@
            }),
    {
        let f = font();
        let mut k: usize = 0;
        while k < 80
            invariant
                self.wf(),
                k <= 80,
                f@ == font_seq(),
                self.memory@ =~= Seq::new(
                    MEMORY_SIZE as nat,
                    |a: int| if a < k { font_seq()[a] } else { old(self)@.memory[a] },
                ),
                self.framebuffer == old(self).framebuffer,
                self.current_frame == old(self).current_frame,
                self.actual_frame_time_micros == old(self).actual_frame_time_micros,
                self.frame_time_with_sleep_micros == old(self).frame_time_with_sleep_micros,
                self.running == old(self).running,
                self.step_frame == old(self).step_frame,
                self.error == old(self).error,
                self.v_registers == old(self).v_registers,
                self.i_register == old(self).i_register,
                self.program_counter == old(self).program_counter,
                self.call_stack == old(self).call_stack,
                self.delay_timer == old(self).delay_timer,
                self.sound_timer == old(self).sound_timer,
                self.keys_down == old(self).keys_down,
                self.rom_name == old(self).rom_name,
                self.rom_size == old(self).rom_size,
                self.opcodes_per_frame == old(self).opcodes_per_frame,
                self.exit_requested == old(self).exit_requested,
            decreases 80 - k,
    {
            self.memory.set(k, f[k]);
            k = k + 1;
            proof {
                assert(self.memory@ =~= Seq::new(
                    MEMORY_SIZE as nat,
                    |a: int| if a < k { font_seq()[a] } else { old(self)@.memory[a] },
                ));
            }
        }
        proof {
            assert(final(self)@ =~= (MachineV {
                memory: Seq::new(
                    MEMORY_SIZE as nat,
                    |a: int| if a < font_seq().len() { font_seq()[a] } else { old(self)@.memory[a] },
                ),
                ..old(self)@
            }));
        }
    }

    /// A fresh machine: cleared state with the font loaded and the program
    /// counter at `PROGRAM_START`.
    pub fn new() -> (s: CoreState)
        ensures
            s@ == initial_machine(),
            s.wf(),
    {
        let mut s = CoreState {
            framebuffer: filled(false, BASE_WIDTH * BASE_HEIGHT),
            current_frame: 0,
            actual_frame_time_micros: 0,
            frame_time_with_sleep_micros: 0,
            running: false,
            step_frame: false,
            error: None,
            memory: filled(0u8, MEMORY_SIZE),
            v_registers: filled(0u8, 16),
            i_register: 0,
            program_counter: PROGRAM_START as u16,
            call_stack: Vec::new(),
            delay_timer: 0,
            sound_timer: 0,
            keys_down: [false;16],
            rom_name: None,
            rom_size: None,
            opcodes_per_frame: DEFAULT_OPCODES_PER_FRAME,
            exit_requested: false,
        };
        s.load_font();
        proof {
            assert(s@ =~= initial_machine());
        }
        s
    }
}

} // verus!
