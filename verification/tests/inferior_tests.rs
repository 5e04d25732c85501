use deet::inferior::{
    classify, push_signal, render_frame, render_frames, walk_stack, Inferior, Registers, Status,
    Symbol, TraceError, WaitEvent,
};
use std::collections::HashMap;

/// A process identifier that no process has.
const NOBODY: i32 = i32::MAX;

fn memory(words: &[(u64, u64)]) -> HashMap<u64, u64> {
    words.iter().copied().collect()
}

fn no_symbol(_address: u64) -> Symbol {
    Symbol { function: None, line: None }
}

#[test]
fn status_lines() {
    assert_eq!(Status::Exited(0).render(), "exited with code 0");
    assert_eq!(Status::Exited(3).render(), "exited with code 3");
    assert_eq!(Status::Exited(-1).render(), "exited with code -1");
    assert_eq!(Status::Signaled(9).render(), "killed by signal SIGKILL");
    assert_eq!(Status::Signaled(11).render(), "killed by signal SIGSEGV");
    assert_eq!(
        Status::Stopped(5, 0x401136).render(),
        "stopped, signal SIGTRAP, at address 0x401136"
    );
    assert_eq!(Status::Stopped(19, 0).render(), "stopped, signal SIGSTOP, at address 0x0");
}

#[test]
fn signals_are_shown_by_name() {
    let mut s = String::from("<");
    push_signal(&mut s, 2);
    s.push('>');
    assert_eq!(s, "<SIGINT>");
    let names = [(1, "SIGHUP"), (6, "SIGABRT"), (15, "SIGTERM"), (31, "SIGSYS")];
    for (number, name) in names {
        let mut s = String::new();
        push_signal(&mut s, number);
        assert_eq!(s, name);
    }
}

#[test]
fn numbers_that_are_no_signal_are_shown_as_numbers() {
    for (number, text) in [(0, "0"), (32, "32"), (99, "99"), (-4, "-4")] {
        let mut s = String::new();
        push_signal(&mut s, number);
        assert_eq!(s, text);
    }
    assert_eq!(Status::Signaled(64).render(), "killed by signal 64");
}

#[test]
fn terminal_statuses() {
    assert!(Status::Exited(0).is_terminal());
    assert!(Status::Signaled(9).is_terminal());
    assert!(!Status::Stopped(5, 0x1000).is_terminal());
}

#[test]
fn exit_and_death_keep_their_values() {
    for code in [0, 1, 42, 255, -7] {
        assert_eq!(classify(WaitEvent::Exited(code), 0), Ok(Status::Exited(code)));
        assert_eq!(classify(WaitEvent::Exited(code), 0x999), Ok(Status::Exited(code)));
    }
    for signal in [2, 9, 11, 15] {
        assert_eq!(classify(WaitEvent::Signaled(signal), 0), Ok(Status::Signaled(signal)));
    }
}

#[test]
fn stop_takes_the_instruction_pointer() {
    assert_eq!(classify(WaitEvent::Stopped(5), 0x401000), Ok(Status::Stopped(5, 0x401000)));
    assert_eq!(classify(WaitEvent::Stopped(19), 0), Ok(Status::Stopped(19, 0)));
}

#[test]
fn other_state_changes_are_refused() {
    for event in [
        WaitEvent::PtraceEvent(5, 1),
        WaitEvent::PtraceSyscall,
        WaitEvent::Continued,
        WaitEvent::StillAlive,
    ] {
        assert_eq!(classify(event, 0x1000), Err(TraceError::UnexpectedStatus));
    }
}

#[test]
fn only_a_first_stop_makes_an_inferior() {
    let stopped = Inferior::adopt(1234, &Ok(Status::Stopped(5, 0x1000)));
    assert_eq!(stopped.map(|inferior| inferior.pid()), Some(1234));
    assert!(Inferior::adopt(1234, &Ok(Status::Exited(0))).is_none());
    assert!(Inferior::adopt(1234, &Ok(Status::Signaled(9))).is_none());
    assert!(Inferior::adopt(1234, &Err(TraceError::UnexpectedStatus)).is_none());
    assert!(Inferior::adopt(1234, &Err(TraceError::Os("ECHILD".to_string()))).is_none());
}

#[test]
fn no_inferior_without_a_process() {
    assert!(Inferior::adopt(0, &Ok(Status::Stopped(5, 0x1000))).is_none());
    assert!(Inferior::adopt(-1, &Ok(Status::Stopped(5, 0x1000))).is_none());
    assert!(Inferior::new(0).is_none());
    assert!(Inferior::new(-1).is_none());
    assert!(Inferior::new(i32::MIN).is_none());
}

#[test]
fn a_child_that_is_not_there_is_not_taken_over() {
    assert!(Inferior::new(NOBODY).is_none());
}

#[test]
fn operations_on_a_vanished_process_fail_with_a_description() {
    let inferior = Inferior::adopt(NOBODY, &Ok(Status::Stopped(5, 0))).unwrap();
    assert_eq!(inferior.pid(), NOBODY);
    match inferior.continues() {
        Err(TraceError::Os(text)) => assert!(!text.is_empty()),
        other => panic!("unexpected outcome: {:?}", other),
    }
    match inferior.wait(None) {
        Err(TraceError::Os(text)) => assert!(!text.is_empty()),
        other => panic!("unexpected outcome: {:?}", other),
    }
    match inferior.print_backtrace(no_symbol) {
        Err(TraceError::Os(text)) => assert!(!text.is_empty()),
        other => panic!("unexpected outcome: {:?}", other),
    }
    assert!(!inferior.teardown());
}

#[test]
fn walk_goes_from_innermost_to_outermost() {
    // main calls b, b calls c; stopped inside c.
    let in_c = 0x401150;
    let return_to_b = 0x401140;
    let return_to_main = 0x401120;
    let return_to_start = 0x401010;
    let mem = memory(&[
        (0x7000, 0x7020),
        (0x7008, return_to_b),
        (0x7020, 0x7040),
        (0x7028, return_to_main),
        (0x7040, 0),
        (0x7048, return_to_start),
    ]);
    let frames = walk_stack(
        Registers { rip: in_c, rbp: 0x7000 },
        |addr| mem.get(&addr).copied(),
        usize::MAX,
    );
    assert_eq!(frames, vec![in_c, return_to_b, return_to_main, return_to_start]);
}

#[test]
fn walk_stops_at_an_unreadable_link() {
    let regs = Registers { rip: 0x10, rbp: 0x7000 };
    // The frame base cannot be read at all.
    let empty = memory(&[]);
    assert_eq!(walk_stack(regs, |addr| empty.get(&addr).copied(), usize::MAX), vec![0x10]);
    // The saved frame base can be read, the return address cannot.
    let half = memory(&[(0x7000, 0x7020)]);
    assert_eq!(walk_stack(regs, |addr| half.get(&addr).copied(), usize::MAX), vec![0x10]);
    // The return address can be read, the saved frame base cannot.
    let other_half = memory(&[(0x7008, 0x20)]);
    assert_eq!(walk_stack(regs, |addr| other_half.get(&addr).copied(), usize::MAX), vec![0x10]);
    // The second link is broken.
    let broken = memory(&[(0x7000, 0x7020), (0x7008, 0x20), (0x7020, 0x7040)]);
    assert_eq!(
        walk_stack(regs, |addr| broken.get(&addr).copied(), usize::MAX),
        vec![0x10, 0x20]
    );
}

#[test]
fn walk_on_a_circular_chain_goes_once_around() {
    let regs = Registers { rip: 0x10, rbp: 0x7000 };
    // A frame base that is saved in its own frame.
    let circle = memory(&[(0x7000, 0x7000), (0x7008, 0x20)]);
    let frames = walk_stack(regs, |addr| circle.get(&addr).copied(), usize::MAX);
    assert_eq!(frames, vec![0x10, 0x20]);
    // Three frames, the last of which leads back to the second.
    let ring = memory(&[
        (0x7000, 0x7020),
        (0x7008, 0x20),
        (0x7020, 0x7040),
        (0x7028, 0x30),
        (0x7040, 0x7020),
        (0x7048, 0x40),
    ]);
    let frames = walk_stack(regs, |addr| ring.get(&addr).copied(), usize::MAX);
    assert_eq!(frames, vec![0x10, 0x20, 0x30, 0x40]);
}

#[test]
fn walk_does_not_read_a_frame_base_twice() {
    let regs = Registers { rip: 0x10, rbp: 0x7000 };
    let circle = memory(&[(0x7000, 0x7020), (0x7008, 0x20), (0x7020, 0x7000), (0x7028, 0x30)]);
    let reads = std::cell::RefCell::new(Vec::new());
    let frames = walk_stack(
        regs,
        |addr| {
            reads.borrow_mut().push(addr);
            circle.get(&addr).copied()
        },
        usize::MAX,
    );
    assert_eq!(frames, vec![0x10, 0x20, 0x30]);
    assert_eq!(*reads.borrow(), vec![0x7000, 0x7008, 0x7020, 0x7028]);
}

#[test]
fn walk_ends_with_its_limit() {
    let regs = Registers { rip: 0x10, rbp: 0x1000 };
    let mut words = Vec::new();
    for k in 0..10u64 {
        words.push((0x1000 + 0x20 * k, 0x1000 + 0x20 * (k + 1)));
        words.push((0x1008 + 0x20 * k, 0x100 + k));
    }
    let chain = memory(&words);
    let all = walk_stack(regs, |addr| chain.get(&addr).copied(), usize::MAX);
    assert_eq!(all.len(), 11);
    assert_eq!(all[10], 0x109);
    let some = walk_stack(regs, |addr| chain.get(&addr).copied(), 3);
    assert_eq!(some, vec![0x10, 0x100, 0x101, 0x102]);
    let none = walk_stack(regs, |addr| chain.get(&addr).copied(), 0);
    assert_eq!(none, vec![0x10]);
}

#[test]
fn walk_of_a_deep_stack_finds_every_frame() {
    let depth = 100_000u64;
    let regs = Registers { rip: 0x10, rbp: 0x10_0000 };
    let frames = walk_stack(
        regs,
        |addr| {
            if addr < 0x10_0000 || addr >= 0x10_0000 + 16 * depth {
                None
            } else if addr % 16 == 0 {
                Some(addr + 16)
            } else {
                Some(addr)
            }
        },
        usize::MAX,
    );
    assert_eq!(frames.len() as u64, depth + 1);
    assert_eq!(frames[1], 0x10_0008);
    assert_eq!(frames[depth as usize], 0x10_0000 + 16 * (depth - 1) + 8);
}

#[test]
fn walk_does_not_read_past_the_end_of_memory() {
    let regs = Registers { rip: 0x10, rbp: u64::MAX - 3 };
    let frames = walk_stack(regs, |_addr| Some(0x20), usize::MAX);
    assert_eq!(frames, vec![0x10]);
    let last = Registers { rip: 0x10, rbp: u64::MAX - 8 };
    let top = memory(&[(u64::MAX - 8, 0), (u64::MAX, 0x30)]);
    assert_eq!(walk_stack(last, |addr| top.get(&addr).copied(), usize::MAX), vec![0x10, 0x30]);
}

#[test]
fn walk_reads_each_link_in_order() {
    let regs = Registers { rip: 0x10, rbp: 0x7000 };
    let mem = memory(&[(0x7000, 0x7020), (0x7008, 0x20)]);
    let reads = std::cell::RefCell::new(Vec::new());
    let frames = walk_stack(
        regs,
        |addr| {
            reads.borrow_mut().push(addr);
            mem.get(&addr).copied()
        },
        usize::MAX,
    );
    assert_eq!(frames, vec![0x10, 0x20]);
    assert_eq!(*reads.borrow(), vec![0x7000, 0x7008, 0x7020]);
}

#[test]
fn frame_lines() {
    let full = Symbol { function: Some("main".to_string()), line: Some("sample.c:12".to_string()) };
    assert_eq!(render_frame(0, &full, 0x401136), "0: main sample.c:12 rip: 0x401136");
    let name_only = Symbol { function: Some("_start".to_string()), line: None };
    assert_eq!(render_frame(3, &name_only, 0x401010), "3: _start rip: 0x401010");
    let line_only = Symbol { function: None, line: Some("a.c:1".to_string()) };
    assert_eq!(render_frame(10, &line_only, 0xff), "10: a.c:1 rip: 0xff");
    assert_eq!(render_frame(1, &no_symbol(0), 0), "1: rip: 0x0");
}

#[test]
fn backtrace_of_a_call_chain_resolves_each_frame() {
    let mem = memory(&[
        (0x7000, 0x7020),
        (0x7008, 0x2005),
        (0x7020, 0x7040),
        (0x7028, 0x1005),
        (0x7040, 0),
        (0x7048, 0x9000),
    ]);
    let frames = walk_stack(
        Registers { rip: 0x3005, rbp: 0x7000 },
        |addr| mem.get(&addr).copied(),
        usize::MAX,
    );
    let resolve = |address: u64| match address >> 12 {
        1 => Symbol { function: Some("a".to_string()), line: Some("chain.c:3".to_string()) },
        2 => Symbol { function: Some("b".to_string()), line: Some("chain.c:7".to_string()) },
        3 => Symbol { function: Some("c".to_string()), line: Some("chain.c:11".to_string()) },
        _ => Symbol { function: None, line: None },
    };
    let lines = render_frames(&frames, resolve);
    assert_eq!(
        lines,
        vec![
            "0: c chain.c:11 rip: 0x3005",
            "1: b chain.c:7 rip: 0x2005",
            "2: a chain.c:3 rip: 0x1005",
            "3: rip: 0x9000",
        ]
    );
    assert!(render_frames(&Vec::new(), resolve).is_empty());
}
