use chip8_core::machine::{CoreState, ErrorKind, Event, RomFile, MAX_ROM_SIZE};
use chip8_core::sched::Core;

fn rom_event(bytes: Vec<u8>) -> Event {
    Event::LoadRom(RomFile {
        path: String::from("game.ch8"),
        name: String::from("game.ch8"),
        data: Ok(bytes),
    })
}

#[test]
fn load_rom_stores_bytes_and_metadata() {
    let mut s = CoreState::new();
    s.load_game(RomFile {
        path: String::from("three.ch8"),
        name: String::from("three.ch8"),
        data: Ok(vec![1, 2, 3]),
    });
    assert_eq!(&s.memory[512..515], &[1, 2, 3]);
    assert_eq!(s.memory[515], 0);
    assert_eq!(s.rom_name.as_deref(), Some("three.ch8"));
    assert_eq!(s.rom_size, Some(3));
    assert!(s.error.is_none());
}

#[test]
fn load_rom_of_exactly_the_allowance_fits() {
    let mut s = CoreState::new();
    s.load_game(RomFile {
        path: String::from("full.ch8"),
        name: String::from("full.ch8"),
        data: Ok(vec![0xAB; MAX_ROM_SIZE]),
    });
    assert!(s.error.is_none());
    assert_eq!(s.memory[512], 0xAB);
    assert_eq!(s.memory[4095], 0xAB);
    assert_eq!(s.rom_size, Some(MAX_ROM_SIZE));
}

#[test]
fn oversized_rom_changes_nothing_but_the_error() {
    let mut s = CoreState::new();
    let before = s.memory.clone();
    s.load_game(RomFile {
        path: String::from("big.ch8"),
        name: String::from("big.ch8"),
        data: Ok(vec![0xCD; MAX_ROM_SIZE + 1]),
    });
    match &s.error {
        Some(ErrorKind::RomTooLarge { path, size, allowed }) => {
            assert_eq!(path, "big.ch8");
            assert_eq!(*size, MAX_ROM_SIZE + 1);
            assert_eq!(*allowed, MAX_ROM_SIZE);
        },
        _ => panic!("expected RomTooLarge"),
    }
    assert_eq!(s.memory, before);
    assert!(s.rom_name.is_none());
    assert!(s.rom_size.is_none());
}

#[test]
fn unreadable_rom_reports_invalid_rom() {
    let mut s = CoreState::new();
    s.load_game(RomFile {
        path: String::from("gone.ch8"),
        name: String::from("gone.ch8"),
        data: Err(String::from("file not found")),
    });
    match &s.error {
        Some(ErrorKind::InvalidRom { path, specific_error }) => {
            assert_eq!(path, "gone.ch8");
            assert_eq!(specific_error, "file not found");
        },
        _ => panic!("expected InvalidRom"),
    }
}

#[test]
fn events_change_flags_and_speed() {
    let mut s = CoreState::new();
    s.apply_event(Event::ChangeRunning(true));
    assert!(s.running);
    s.apply_event(Event::ChangeOpcodesPerFrame(7));
    assert_eq!(s.opcodes_per_frame, 7);
    s.apply_event(Event::StepFrame);
    assert!(s.step_frame);
    let mut keys = [false; 16];
    keys[0xC] = true;
    s.apply_event(Event::KeysDown(keys));
    assert!(s.keys_down[0xC]);
    s.apply_event(Event::Exit);
    assert!(s.exit_requested);
    assert!(!s.running);
}

#[test]
fn linear_frames_advance_counter_by_batch_size() {
    // Two load-immediate instructions per frame, three frames: the program
    // counter lands at 512 + 2*2*3 and the frame counter at 3.
    let mut s = CoreState::new();
    let rom: Vec<u8> = (0..12).map(|k| if k % 2 == 0 { 0x61 } else { 0x01 }).collect();
    s.load_game(RomFile {
        path: String::from("lin.ch8"),
        name: String::from("lin.ch8"),
        data: Ok(rom),
    });
    s.opcodes_per_frame = 2;
    s.running = true;
    for _ in 0..3 {
        s.frame_tick();
    }
    assert_eq!(s.current_frame, 3);
    assert_eq!(s.program_counter, 512 + 2 * 2 * 3);
    assert!(s.error.is_none());
}

#[test]
fn idle_or_halted_frames_change_nothing() {
    let mut s = CoreState::new();
    s.frame_tick();
    assert_eq!(s.current_frame, 0);
    assert_eq!(s.program_counter, 512);
    s.running = true;
    s.exit_requested = true;
    s.frame_tick();
    assert_eq!(s.current_frame, 0);
}

#[test]
fn stepping_runs_one_frame_and_clears_the_flag() {
    let mut s = CoreState::new();
    s.load_game(RomFile {
        path: String::from("s.ch8"),
        name: String::from("s.ch8"),
        data: Ok(vec![0x61, 0x01]),
    });
    s.opcodes_per_frame = 1;
    s.step_frame = true;
    s.frame_tick();
    assert_eq!(s.current_frame, 1);
    assert!(!s.step_frame);
    assert_eq!(s.v_registers[1], 1);
    s.frame_tick();
    assert_eq!(s.current_frame, 1);
}

#[test]
fn an_error_aborts_the_batch() {
    // First instruction is an invalid pattern: the rest of the batch never
    // runs.
    let mut s = CoreState::new();
    s.load_game(RomFile {
        path: String::from("e.ch8"),
        name: String::from("e.ch8"),
        data: Ok(vec![0x81, 0x0F, 0x61, 0x05]),
    });
    s.opcodes_per_frame = 2;
    s.running = true;
    s.frame_tick();
    assert!(s.error.is_some());
    assert_eq!(s.v_registers[1], 0);
    assert_eq!(s.program_counter, 514);
}

#[test]
fn scheduler_loop_runs_commands_and_frames_until_exit() {
    let (event_sender, event_receiver) = crossbeam_channel::unbounded();
    let initial = CoreState::new();
    let (mut state_receiver, state_updater) =
        single_value_channel::channel_starting_with(initial);
    let mut core = Core::new(event_receiver, state_updater);

    event_sender.send(rom_event(vec![0x61, 0x01, 0x62, 0x02])).unwrap();
    event_sender.send(Event::ChangeOpcodesPerFrame(1)).unwrap();
    event_sender.send(Event::ChangeRunning(true)).unwrap();
    assert!(core.run_frame());
    assert!(core.run_frame());
    event_sender.send(Event::Exit).unwrap();
    assert!(core.run_frame());
    assert!(!core.run_frame());

    let snapshot = state_receiver.latest();
    assert!(snapshot.exit_requested);
    assert!(snapshot.error.is_none());
    assert_eq!(snapshot.current_frame, 2);
    assert_eq!(snapshot.v_registers[1], 1);
    assert_eq!(snapshot.v_registers[2], 2);
    assert_eq!(snapshot.rom_name.as_deref(), Some("game.ch8"));
}

#[test]
fn key_wait_poll_still_observes_exit() {
    // A machine stuck on the key-wait instruction re-polls once per frame,
    // so an exit command still takes effect within one iteration.
    let (event_sender, event_receiver) = crossbeam_channel::unbounded();
    let (_state_receiver, state_updater) =
        single_value_channel::channel_starting_with(CoreState::new());
    let mut core = Core::new(event_receiver, state_updater);

    event_sender.send(rom_event(vec![0xF1, 0x0A])).unwrap();
    event_sender.send(Event::ChangeOpcodesPerFrame(1)).unwrap();
    event_sender.send(Event::ChangeRunning(true)).unwrap();
    assert!(core.run_frame());
    assert!(core.run_frame());
    // Still waiting: the counter keeps pointing at the instruction.
    assert_eq!(core.state.program_counter, 512);
    assert!(core.state.error.is_none());
    event_sender.send(Event::Exit).unwrap();
    assert!(core.run_frame());
    assert!(!core.run_frame());
}

#[test]
fn key_wait_resumes_when_a_key_arrives() {
    let (event_sender, event_receiver) = crossbeam_channel::unbounded();
    let (_state_receiver, state_updater) =
        single_value_channel::channel_starting_with(CoreState::new());
    let mut core = Core::new(event_receiver, state_updater);

    event_sender.send(rom_event(vec![0xF1, 0x0A])).unwrap();
    event_sender.send(Event::ChangeOpcodesPerFrame(1)).unwrap();
    event_sender.send(Event::ChangeRunning(true)).unwrap();
    assert!(core.run_frame());
    assert_eq!(core.state.program_counter, 512);
    let mut keys = [false; 16];
    keys[0xB] = true;
    event_sender.send(Event::KeysDown(keys)).unwrap();
    assert!(core.run_frame());
    assert_eq!(core.state.v_registers[1], 0xB);
    assert_eq!(core.state.program_counter, 514);
    event_sender.send(Event::Exit).unwrap();
    assert!(core.run_frame());
    assert!(!core.run_frame());
}

#[test]
fn an_errored_scheduler_keeps_serving_commands() {
    let (event_sender, event_receiver) = crossbeam_channel::unbounded();
    let (mut state_receiver, state_updater) =
        single_value_channel::channel_starting_with(CoreState::new());
    let mut core = Core::new(event_receiver, state_updater);

    event_sender.send(rom_event(vec![0x00, 0xEE])).unwrap();
    event_sender.send(Event::ChangeRunning(true)).unwrap();
    assert!(core.run_frame());
    assert!(core.state.error.is_some());
    // The loop keeps going, idle, so the controller can still exit.
    assert!(core.run_frame());
    event_sender.send(Event::Exit).unwrap();
    assert!(core.run_frame());
    assert!(!core.run_frame());
    assert!(state_receiver.latest().exit_requested);
}
