use ysos::apic::{
    apic_id, cpu_init_op, icr_halves, icr_pending, icr_value, init_deassert_icr, lvt_error_value,
    lvt_timer_value, spiv_value, ApicOp, ApicVectors, XApic, REG_SPIV, REG_TPR,
};
use ysos::input::{kernel_line_step, pop_key, push_key, receive, try_pop_key, Echo, InputBuffer};
use ysos::io::{stderr, stdin, stdout};
use ysos::keyboard::{key_of_decoded, keyboard_receive, Decoded, Keyboard};
use ysos::logger::{parse_level_filter, LogLevel};
use ysos::memory::{
    align_up, align_up_u64, aligned_map_end, brk_accepted, brk_finish, brk_extend_plan, brk_init_layout,
    heap_brk, heap_clean_up, memory_usage, HeapBrk, HEAP_END, HEAP_START,
};
use ysos::proc::{move_stack_down, spawn_name, wait_pid, ProgramStatus, WaitAction};
use ysos::sched::{ProcInfo, ProcessManager};
use ysos::sync::{sem_reply_ok, SemCall, SemOp, Semaphore, SpinLock};
use ysos::semaphores::SemaphoreSet;
use ysos::syscall::{
    brk_reply, brk_request, close_fd, new_sem, remove_sem, sem_signal, sem_wait, sys_close,
    sys_sem, SemAction, SemaphoreResult, SyscallArgs,
};
use ysos::time::{sleep_elapsed, sys_time, sys_time_reply};
use ysos::uart::{data_ready, register_port, transmit_empty, uart_init_op, UartOp};
use ysos::vga::{
    clip_rect, cmos_clock_time, cmos_poll_step, cmos_value, pixel_offset, pixel_value, scroll_plan, utc8_from_utc,
    ClockTime, CmosReading, CmosStep, OutputQueue, PixelFormat, TermOp, Terminal, OUTPUT_QUEUE_SIZE,
};

fn info(status: ProgramStatus) -> ProcInfo {
    ProcInfo { status, exit_code: None, ret: None, ticks: 0 }
}

#[test]
fn scheduler_runs_ready_processes_in_order() {
    let mut pm = ProcessManager::new(1);
    pm.add_proc(2, info(ProgramStatus::Ready));
    pm.add_proc(3, info(ProgramStatus::Ready));
    pm.push_ready(2);
    pm.push_ready(3);
    assert_eq!(pm.switch(), 2);
    assert_eq!(pm.current(), 2);
    assert_eq!(pm.get_proc(1).unwrap().status, ProgramStatus::Ready);
    assert_eq!(pm.get_proc(1).unwrap().ticks, 1);
    assert_eq!(pm.get_proc(2).unwrap().status, ProgramStatus::Running);
    assert_eq!(pm.switch(), 3);
    assert_eq!(pm.switch(), 1);
}

#[test]
fn switch_skips_processes_that_are_not_ready() {
    let mut pm = ProcessManager::new(1);
    pm.add_proc(2, info(ProgramStatus::Blocked));
    pm.add_proc(3, info(ProgramStatus::Ready));
    pm.push_ready(9);
    pm.push_ready(2);
    pm.push_ready(3);
    assert_eq!(pm.switch_next(), 3);
    assert_eq!(pm.get_proc(3).unwrap().status, ProgramStatus::Running);
}

#[test]
fn kill_wakes_up_waiters_with_the_exit_code() {
    let mut pm = ProcessManager::new(1);
    pm.add_proc(2, info(ProgramStatus::Ready));
    pm.wait_pid(2);
    pm.block(1);
    assert_eq!(pm.get_proc(1).unwrap().status, ProgramStatus::Blocked);
    pm.kill(2, 42);
    assert_eq!(pm.exit_code(2), Some(42));
    assert!(!pm.is_alive(2));
    let waiter = pm.get_proc(1).unwrap();
    assert_eq!(waiter.status, ProgramStatus::Ready);
    assert_eq!(waiter.ret, Some(42));
    // The waiter is queued and runs next.
    assert_eq!(pm.switch_next(), 1);
}

#[test]
fn kill_twice_keeps_the_first_exit_code() {
    let mut pm = ProcessManager::new(1);
    pm.add_proc(2, info(ProgramStatus::Ready));
    pm.kill(2, 7);
    pm.kill(2, 8);
    assert_eq!(pm.exit_code(2), Some(7));
    pm.kill(5, 1);
    assert_eq!(pm.exit_code(5), None);
    assert!(!pm.is_alive(5));
}

#[test]
fn wake_up_answers_and_queues() {
    let mut pm = ProcessManager::new(1);
    pm.add_proc(4, info(ProgramStatus::Blocked));
    pm.wake_up(4, None);
    assert_eq!(pm.get_proc(4).unwrap().ret, None);
    pm.block(4);
    pm.wake_up(4, Some(-3));
    assert_eq!(pm.get_proc(4).unwrap().ret, Some(-3));
    assert_eq!(pm.switch_next(), 4);
}

#[test]
fn kill_current_marks_it_dead() {
    let mut pm = ProcessManager::new(1);
    pm.kill_current(0);
    assert!(!pm.is_alive(1));
    assert_eq!(pm.exit_code(1), Some(0));
}

#[test]
fn wait_pid_decisions() {
    assert_eq!(wait_pid(3, 1, Some(5), false), WaitAction::Reply(5));
    assert_eq!(wait_pid(3, 1, Some(-1), true), WaitAction::Reply(usize::MAX));
    assert_eq!(wait_pid(1, 1, None, true), WaitAction::Reply(usize::MAX));
    assert_eq!(wait_pid(3, 1, None, false), WaitAction::Reply(usize::MAX));
    assert_eq!(wait_pid(3, 1, None, true), WaitAction::Block);
}

#[test]
fn spawn_name_is_the_last_part_of_the_path() {
    assert_eq!(spawn_name("/APP/SHELL"), Some("SHELL"));
    assert_eq!(spawn_name("/APP/SHELL/"), Some("SHELL"));
    assert_eq!(spawn_name("///"), None);
    assert_eq!(spawn_name("hello"), Some("hello"));
}

#[test]
fn moving_a_stack_down() {
    assert_eq!(move_stack_down(0x2000, 0x1800, 0x1000), (0x1000, 0x800));
    assert_eq!(move_stack_down(0x2000, 0x800, 0x1000), (0x1000, 0x800));
}

#[test]
fn syscall_replies() {
    let args = SyscallArgs { arg0: 0x1_05, arg1: 0, arg2: 0 };
    assert_eq!(close_fd(&args), 5);
    assert_eq!(sys_close(true), 0);
    assert_eq!(sys_close(false), usize::MAX);
    assert_eq!(new_sem(true), 0);
    assert_eq!(new_sem(false), 1);
    assert_eq!(remove_sem(true), 0);
    assert_eq!(remove_sem(false), 1);
}

#[test]
fn sem_calls_round_trip_through_the_syscall() {
    let sem = Semaphore::new(0x300);
    for call in [sem.init(4), sem.remove(), sem.signal(), sem.wait()] {
        let (a0, a1, a2) = call.args();
        let decoded = sys_sem(&SyscallArgs { arg0: a0, arg1: a1, arg2: a2 }).unwrap();
        assert_eq!(decoded, call);
    }
    assert_eq!(sys_sem(&SyscallArgs { arg0: 4, arg1: 1, arg2: 2 }), None);
    assert_eq!(SemOp::from_code(7), None);
    assert_eq!(sem.init(4), SemCall { op: SemOp::New, key: 0x300, value: 4 });
    assert_eq!(sem.key(), 0x300);
    assert!(sem_reply_ok(0));
    assert!(!sem_reply_ok(1));
}

#[test]
fn semaphore_actions() {
    assert_eq!(sem_wait(SemaphoreResult::Success), SemAction::Reply(0));
    assert_eq!(sem_wait(SemaphoreResult::NotExist), SemAction::Reply(1));
    assert_eq!(sem_wait(SemaphoreResult::Block(3)), SemAction::BlockAndSwitch(3));
    assert_eq!(sem_signal(SemaphoreResult::WakeUp(3)), SemAction::WakeUpAndReply(3));
    assert_eq!(sem_signal(SemaphoreResult::NotExist), SemAction::Reply(1));
}

#[test]
fn brk_requests_and_replies() {
    assert_eq!(brk_request(&SyscallArgs { arg0: 0, arg1: 0, arg2: 0 }), None);
    assert_eq!(
        brk_request(&SyscallArgs { arg0: 0x2000_0000_1000, arg1: 0, arg2: 0 }),
        Some(0x2000_0000_1000)
    );
    assert_eq!(brk_reply(Some(0x1234)), 0x1234);
    assert_eq!(brk_reply(None), usize::MAX);
}

#[test]
fn spin_lock_is_taken_once() {
    let lock = SpinLock::new();
    assert!(!lock.is_locked());
    assert!(lock.try_acquire());
    assert!(lock.is_locked());
    assert!(!lock.try_acquire());
    lock.release();
    assert!(lock.try_acquire());
}

#[test]
fn input_buffer_is_fifo_and_drops_when_full() {
    let mut buf = InputBuffer::new();
    assert_eq!(try_pop_key(&mut buf), None);
    push_key(&mut buf, b'a');
    receive(&mut buf, Some(b'b'));
    receive(&mut buf, None);
    assert_eq!(pop_key(&mut buf), b'a');
    assert_eq!(try_pop_key(&mut buf), Some(b'b'));
    for i in 0..200u32 {
        push_key(&mut buf, (i % 256) as u8);
    }
    let mut n = 0;
    while let Some(k) = try_pop_key(&mut buf) {
        assert_eq!(k, n as u8);
        n += 1;
    }
    assert_eq!(n, 128);
}

#[test]
fn kernel_line_editing() {
    let mut line = Vec::new();
    assert_eq!(kernel_line_step(&mut line, b'h'), (false, Echo::Show('h')));
    assert_eq!(kernel_line_step(&mut line, b'x'), (false, Echo::Show('x')));
    assert_eq!(kernel_line_step(&mut line, 0x7f), (false, Echo::Erase));
    assert_eq!(kernel_line_step(&mut line, b'i'), (false, Echo::Show('i')));
    assert_eq!(kernel_line_step(&mut line, b'\n'), (true, Echo::Newline));
    assert_eq!(line.iter().collect::<String>(), "hi");
    let mut empty = Vec::new();
    assert_eq!(kernel_line_step(&mut empty, 0x08), (false, Echo::Nothing));
}

#[test]
fn user_line_editing() {
    let sin = stdin();
    assert_eq!(sin.fd(), 0);
    let mut line = Vec::new();
    assert_eq!(sin.read_line_step(&mut line, b'o'), (false, Echo::Show('o')));
    assert_eq!(sin.read_line_step(&mut line, 0xe9), (false, Echo::Nothing));
    assert_eq!(sin.read_line_step(&mut line, 0x08), (false, Echo::Erase));
    assert_eq!(sin.read_line_step(&mut line, b'k'), (false, Echo::Show('k')));
    assert_eq!(sin.read_line_step(&mut line, b'\r'), (true, Echo::Newline));
    assert_eq!(line.iter().collect::<String>(), "ok");
}

#[test]
fn standard_streams_write_to_their_descriptors() {
    let w = stdout().write("hi\n");
    assert_eq!(w.fd, 1);
    assert_eq!(w.bytes, b"hi\n");
    let e = stderr().write("oops");
    assert_eq!(e.fd, 2);
    assert_eq!(e.bytes, b"oops");
}

#[test]
fn keys_from_decoded_key_presses() {
    assert_eq!(key_of_decoded(Decoded::Unicode('\r')), Some(b'\n'));
    assert_eq!(key_of_decoded(Decoded::Unicode('\n')), Some(b'\n'));
    assert_eq!(key_of_decoded(Decoded::Unicode('q')), Some(b'q'));
    assert_eq!(key_of_decoded(Decoded::Unicode('é')), None);
    assert_eq!(key_of_decoded(Decoded::Backspace), Some(0x08));
    assert_eq!(key_of_decoded(Decoded::OtherRaw), None);
}

fn level_field(s: &[u8]) -> [u8; 16] {
    let mut f = [0u8; 16];
    f[..s.len()].copy_from_slice(s);
    f
}

#[test]
fn log_levels_by_name() {
    assert_eq!(parse_level_filter(&level_field(b"off")), LogLevel::Off);
    assert_eq!(parse_level_filter(&level_field(b"ERROR")), LogLevel::Error);
    assert_eq!(parse_level_filter(&level_field(b"Warn")), LogLevel::Warn);
    assert_eq!(parse_level_filter(&level_field(b"debug")), LogLevel::Debug);
    assert_eq!(parse_level_filter(&level_field(b"tRaCe")), LogLevel::Trace);
    assert_eq!(parse_level_filter(&level_field(b"info")), LogLevel::Info);
    assert_eq!(parse_level_filter(&level_field(b"")), LogLevel::Info);
    assert_eq!(parse_level_filter(&level_field(b"verbose")), LogLevel::Info);
    assert_eq!(parse_level_filter(&[b'x'; 16]), LogLevel::Info);
    assert_eq!(parse_level_filter(&level_field(&[0xff, 0xfe])), LogLevel::Info);
}

#[test]
fn apic_register_values() {
    assert_eq!(spiv_value(0xFFFF_FF00, 0x3f), 0xFFFF_FF3F);
    assert_eq!(spiv_value(0, 0x3f), 0x13F);
    assert_eq!(lvt_timer_value(0x0001_0000, 0x20), 0x0002_0020);
    assert_eq!(lvt_error_value(0x0001_00ff, 0x33), 0x33);
    assert_eq!(init_deassert_icr(), 0x88500);
    assert_eq!(icr_halves(0x1234_5678_9abc_def0), (0x1234_5678, 0x9abc_def0));
    assert_eq!(icr_value(0x1234_5678, 0x9abc_def0), 0x1234_5678_9abc_def0);
    assert_eq!(apic_id(0x0300_0000), 3);
    assert!(icr_pending(0x1000));
    assert!(!icr_pending(0x0fff));
    let x = XApic::new(0xFEE0_0000);
    assert_eq!(x.register_address(0x20), 0xFEE0_0020);
}

#[test]
fn apic_setup_order() {
    let v = ApicVectors { spurious: 0x3f, timer: 0x20, error: 0x33 };
    assert_eq!(cpu_init_op(0, 0, v), ApicOp::Read(REG_SPIV));
    assert_eq!(cpu_init_op(1, 0, v), ApicOp::Write(REG_SPIV, 0x13f));
    assert_eq!(cpu_init_op(14, 0, v), ApicOp::SendIcr(0x88500));
    assert_eq!(cpu_init_op(15, 0, v), ApicOp::Write(REG_TPR, 0));
    assert_eq!(cpu_init_op(16, 0, v), ApicOp::Done);
}

#[test]
fn output_queue_fifo_and_overwrite() {
    let mut q = OutputQueue::new();
    assert_eq!(q.pop(), None);
    assert!(q.push(1));
    assert!(q.push(2));
    assert_eq!(q.pop(), Some(1));
    assert_eq!(q.pop(), Some(2));
    assert_eq!(q.pop(), None);
    for i in 0..(OUTPUT_QUEUE_SIZE + 3) {
        q.push((i % 251) as u8);
    }
    // The three oldest bytes were dropped for the newest ones.
    assert_eq!(q.pop(), Some((3 % 251) as u8));
    let mut n = 1;
    while q.pop().is_some() {
        n += 1;
    }
    assert_eq!(n, OUTPUT_QUEUE_SIZE);
    q.write_bytes(b"abc");
    assert_eq!(q.pop(), Some(b'a'));
}

#[test]
fn cmos_decoding() {
    assert_eq!(cmos_value(0x59, false), 59);
    assert_eq!(cmos_value(0x59, true), 0x59);
    // BCD, 24-hour clock: 23:45:12 UTC is 07:45:12 in UTC+8.
    assert_eq!(
        cmos_clock_time(0x12, 0x45, 0x23, 0x02),
        ClockTime { hour: 7, minute: 45, second: 12 }
    );
    // BCD, 12-hour clock, afternoon: 3 PM UTC is 23:00 in UTC+8.
    assert_eq!(
        cmos_clock_time(0x00, 0x00, 0x83, 0x00),
        ClockTime { hour: 23, minute: 0, second: 0 }
    );
    // Binary, 12-hour clock, 12 AM is midnight UTC.
    assert_eq!(
        cmos_clock_time(5, 6, 12, 0x04),
        ClockTime { hour: 8, minute: 6, second: 5 }
    );
    assert_eq!(utc8_from_utc(20, 1, 2), ClockTime { hour: 4, minute: 1, second: 2 });
}

#[test]
fn pixels() {
    assert_eq!(pixel_offset(800, 600, 800, 800 * 600 * 4, 10, 2), Some((2 * 800 + 10) * 4));
    assert_eq!(pixel_offset(800, 600, 800, 800 * 600 * 4, 800, 2), None);
    assert_eq!(pixel_offset(800, 600, 800, 100, 10, 2), None);
    assert_eq!(pixel_value(PixelFormat::Rgb, 1, 2, 3), 0x030201);
    assert_eq!(pixel_value(PixelFormat::Bgr, 1, 2, 3), 0x010203);
    assert_eq!(clip_rect(790, 590, 100, 100, 800, 600), (800, 600));
    assert_eq!(clip_rect(0, 0, usize::MAX, 5, 800, 600), (800, 5));
}

#[test]
fn terminal_text_and_control_characters() {
    let mut t = Terminal::new(100, 60, 20);
    let mut ops = Vec::new();
    t.write_char_to_terminal('a', &mut ops);
    assert_eq!(ops, vec![TermOp::Draw { ch: 'a', x: 4, y: 24 }]);
    assert_eq!(t.cursor_x, 10);
    t.write_char_to_terminal('\x08', &mut ops);
    assert_eq!(ops[1], TermOp::Fill { x: 4, y: 24, width: 6, height: 10 });
    assert_eq!(t.cursor_x, 4);
    t.write_char_to_terminal('\u{1}', &mut ops);
    assert_eq!(ops.len(), 2);
    t.write_char_to_terminal('\n', &mut ops);
    assert_eq!((t.cursor_x, t.cursor_y), (4, 34));
    t.write_char_to_terminal('\n', &mut ops);
    assert_eq!((t.cursor_x, t.cursor_y), (4, 44));
    t.write_char_to_terminal('\n', &mut ops);
    assert_eq!(ops.last(), Some(&TermOp::Scroll));
    assert_eq!(t.cursor_y, 46);
    t.write_char_to_terminal('\x1b', &mut ops);
    assert!(t.escape_active);
    assert_eq!(ops.last(), Some(&TermOp::Fill { x: 0, y: 20, width: 100, height: 40 }));
    t.write_char_to_terminal('[', &mut ops);
    assert!(t.escape_active);
    t.write_char_to_terminal('J', &mut ops);
    assert!(!t.escape_active);
    assert_eq!((t.cursor_x, t.cursor_y), (4, 24));
}

#[test]
fn terminal_scroll_plan() {
    let (copy, fill) = scroll_plan(100, 60, 100, 100 * 60 * 4, 20);
    assert_eq!(copy, Some((34 * 400, 24 * 400, 22 * 400)));
    assert_eq!(fill, TermOp::Fill { x: 0, y: 46, width: 100, height: 14 });
    let (none, _) = scroll_plan(100, 60, 100, 10, 20);
    assert_eq!(none, None);
}

#[test]
fn align_and_brk_plans() {
    assert_eq!(align_up(0, 4096), 0);
    assert_eq!(align_up(1, 4096), 4096);
    assert_eq!(align_up(4096, 4096), 4096);
    assert_eq!(align_up_u64(4097, 4096), 8192);
    assert_eq!(brk_init_layout(0x1000), (0x1000 + 8184, 0x1000 + 8388600));
    assert_eq!(brk_extend_plan(0x3000, 0x10_0000, 10, 8), Some((4096, 0x4000)));
    assert_eq!(brk_extend_plan(0x3000, 0x10_0000, 5000, 8), Some((8192, 0x5000)));
    assert_eq!(brk_extend_plan(0, 0x10_0000, 10, 8), None);
    assert_eq!(brk_extend_plan(0x3000, 0x3800, 10, 8), None);
    assert!(brk_accepted(Some(0x4000), 0x4000));
    assert!(!brk_accepted(Some(0x3000), 0x4000));
    assert!(!brk_accepted(None, 0x4000));
}

#[test]
fn kernel_heap_brk() {
    let base = HEAP_START;
    assert_eq!(heap_brk(base, base, None), HeapBrk::Query(base));
    assert_eq!(heap_brk(base, base, Some(base - 1)), HeapBrk::Refused);
    assert_eq!(heap_brk(base, base, Some(HEAP_END + 1)), HeapBrk::Refused);
    assert_eq!(
        heap_brk(base, base, Some(base + 5000)),
        HeapBrk::MapPages { start: base, pages: 2, new_end: base + 5000 }
    );
    assert_eq!(
        heap_brk(base, base + 5000, Some(base + 10)),
        HeapBrk::UnmapPages { start: base + 4096, pages: 1, new_end: base + 10 }
    );
    assert_eq!(heap_brk(base, base + 10, Some(base + 20)), HeapBrk::MoveEnd { new_end: base + 20 });
    assert_eq!(aligned_map_end(base, base), base);
    assert_eq!(aligned_map_end(base, base + 1), base + 4096);
    assert_eq!(memory_usage(base, base + 10), 10);
    assert_eq!(heap_clean_up(base, base), None);
    assert_eq!(heap_clean_up(base, base + 4097), Some((base, 2)));
}

#[test]
fn a_brk_is_answered_by_the_next_query() {
    let base = HEAP_START;
    let mut end = base;
    let mut mapped = base;
    for v in [base + 5000, base + 10, base + 12288, base, base + 1] {
        let plan = heap_brk(base, end, Some(v));
        match plan {
            HeapBrk::MapPages { start, pages, .. } => {
                assert_eq!(start, mapped);
                mapped = start + pages * 4096;
            }
            HeapBrk::UnmapPages { start, .. } => mapped = start,
            HeapBrk::MoveEnd { .. } => {}
            other => panic!("{:?}", other),
        }
        let out = brk_finish(end, plan, true);
        assert_eq!(out.reply, Some(v));
        end = out.end;
        assert_eq!(end, v);
        assert_eq!(mapped, aligned_map_end(base, v));
        let query = brk_finish(end, heap_brk(base, end, None), true);
        assert_eq!((query.reply, query.end), (Some(v), v));
        assert_eq!(memory_usage(base, end), v - base);
    }
    let refused = brk_finish(end, heap_brk(base, end, Some(HEAP_END + 1)), true);
    assert_eq!((refused.reply, refused.end), (None, end));
    let failed = brk_finish(end, heap_brk(base, end, Some(base + 40000)), false);
    assert_eq!((failed.reply, failed.end), (None, end));
}

#[test]
fn uart_setup_and_status() {
    assert_eq!(uart_init_op(0), UartOp::Write(1, 0));
    assert_eq!(uart_init_op(2), UartOp::Write(0, 3));
    assert_eq!(uart_init_op(9), UartOp::Expect(0, 0xAE));
    assert_eq!(uart_init_op(11), UartOp::Done);
    assert_eq!(register_port(0x3F8, 5), 0x3FD);
    assert!(data_ready(0x61));
    assert!(!data_ready(0x60));
    assert!(transmit_empty(0x20));
    assert!(!transmit_empty(0x01));
}

#[test]
fn clock_time_round_trip() {
    let ms = sys_time_reply(2024, 2, 29, 13, 5, 9, 250_000_000);
    assert_eq!(ms, 1_709_211_909_250);
    let t = sys_time(ms as i64);
    let d = t.time;
    assert_eq!((d.year, d.month, d.day, d.hour, d.minute, d.second), (2024, 2, 29, 13, 5, 9));
    assert_eq!(t.millis, 250);
    let epoch = sys_time(0);
    assert_eq!((epoch.time.year, epoch.time.month, epoch.time.day), (1970, 1, 1));
    assert_eq!(epoch.millis, 0);
    let before = sys_time(-1);
    assert_eq!((before.time.year, before.time.hour, before.time.second), (1969, 23, 59));
    assert_eq!(before.millis, 999);
    assert!(sleep_elapsed(1000, 1500, 500));
    assert!(!sleep_elapsed(1000, 1499, 500));
}

#[test]
fn clock_layout_on_a_screen() {
    let l = ysos::vga::clock_layout(800, 300);
    assert_eq!(l.graph_height, 298);
    assert_eq!(l.radius, 149 - 26);
    assert_eq!((l.center_x, l.center_y), (400, 159));
    assert_eq!(l.clear_x, 400 - 141);
    assert_eq!(l.clear_y, 159 - 141);
    assert_eq!(l.clear_size, 282);
    assert_eq!(l.label_y, 280);
    let small = ysos::vga::clock_layout(40, 10);
    assert_eq!(small.radius, 20);
    assert_eq!(small.clear_x, 0);
    assert_eq!(ysos::vga::hand_hour(15), 3);
}

#[test]
fn fork_queues_parent_then_child() {
    let mut pm = ProcessManager::new(1);
    let next = pm.fork(2, info(ProgramStatus::Ready));
    assert_eq!(next, 1);
    assert_eq!(pm.get_proc(1).unwrap().status, ProgramStatus::Running);
    assert_eq!(pm.switch(), 2);
    assert_eq!(pm.switch(), 1);
}

#[test]
fn spawn_queues_the_new_process() {
    let mut pm = ProcessManager::new(1);
    pm.spawn(5, info(ProgramStatus::Ready));
    assert!(pm.has_ready());
    assert_eq!(pm.switch(), 5);
    let mut empty = ProcessManager::new(1);
    assert!(!empty.has_ready());
    empty.spawn(6, info(ProgramStatus::Blocked));
    assert!(!empty.has_ready());
}

#[test]
fn semaphore_set_counts_and_queues() {
    let mut sems = SemaphoreSet::new();
    assert!(sems.insert(7, 1));
    assert!(!sems.insert(7, 5));
    assert_eq!(sems.count(7), Some(1));
    assert_eq!(sems.wait(7, 10), SemaphoreResult::Success);
    assert_eq!(sems.count(7), Some(0));
    assert_eq!(sems.wait(7, 11), SemaphoreResult::Block(11));
    assert_eq!(sems.wait(7, 12), SemaphoreResult::Block(12));
    assert_eq!(sems.signal(7), SemaphoreResult::WakeUp(11));
    assert_eq!(sems.signal(7), SemaphoreResult::WakeUp(12));
    assert_eq!(sems.signal(7), SemaphoreResult::Success);
    assert_eq!(sems.count(7), Some(1));
    assert_eq!(sems.wait(8, 10), SemaphoreResult::NotExist);
    assert_eq!(sems.signal(8), SemaphoreResult::NotExist);
    assert!(sems.insert(8, 0));
    assert!(sems.remove(7));
    assert!(!sems.remove(7));
    assert_eq!(sems.count(7), None);
    assert_eq!(sems.count(8), Some(0));
}

#[test]
fn a_signal_undoes_a_wait() {
    let mut sems = SemaphoreSet::new();
    sems.insert(1, 0);
    assert_eq!(sems.wait(1, 3), SemaphoreResult::Block(3));
    assert_eq!(sems.signal(1), SemaphoreResult::WakeUp(3));
    assert_eq!(sems.count(1), Some(0));
    sems.insert(2, 2);
    assert_eq!(sems.wait(2, 3), SemaphoreResult::Success);
    assert_eq!(sems.signal(2), SemaphoreResult::Success);
    assert_eq!(sems.count(2), Some(2));
}

#[test]
fn scancodes_become_keys_in_the_buffer() {
    let mut kb = Keyboard::new();
    let mut buf = InputBuffer::new();
    // 'q' pressed, then released: one key.
    assert_eq!(keyboard_receive(&mut kb, &mut buf, 0x10), Some(Decoded::Unicode('q')));
    assert_eq!(keyboard_receive(&mut kb, &mut buf, 0x90), None);
    // Backspace and Enter.
    assert_eq!(keyboard_receive(&mut kb, &mut buf, 0x0E), Some(Decoded::Unicode('\u{8}')));
    assert_eq!(keyboard_receive(&mut kb, &mut buf, 0x8E), None);
    assert_eq!(keyboard_receive(&mut kb, &mut buf, 0x1C), Some(Decoded::Unicode('\n')));
    // Shift held: an upper-case letter.
    assert_eq!(keyboard_receive(&mut kb, &mut buf, 0x2A), Some(Decoded::OtherRaw));
    assert_eq!(keyboard_receive(&mut kb, &mut buf, 0x1E), Some(Decoded::Unicode('A')));
    assert_eq!(try_pop_key(&mut buf), Some(b'q'));
    assert_eq!(try_pop_key(&mut buf), Some(0x08));
    assert_eq!(try_pop_key(&mut buf), Some(b'\n'));
    assert_eq!(try_pop_key(&mut buf), Some(b'A'));
    assert_eq!(try_pop_key(&mut buf), None);
}

#[test]
fn the_clock_reader_waits_for_two_agreeing_readings() {
    let a = CmosReading { second: 0x59, minute: 0x30, hour: 0x12 };
    let b = CmosReading { second: 0x00, minute: 0x31, hour: 0x12 };
    // 24-hour BCD clock: 12:30:59 UTC is 20:30:59 in UTC+8.
    assert_eq!(
        cmos_poll_step(0, a, a, 0x02),
        CmosStep::Time(ClockTime { hour: 20, minute: 30, second: 59 })
    );
    assert_eq!(cmos_poll_step(0, a, b, 0x02), CmosStep::Retry);
    assert_eq!(cmos_poll_step(8, a, b, 0x02), CmosStep::Retry);
    assert_eq!(cmos_poll_step(9, a, b, 0x02), CmosStep::GiveUp);
}

#[test]
fn a_tick_with_nothing_ready_says_so() {
    let mut pm = ProcessManager::new(1);
    // The only process runs again: it is queued when it stops.
    assert_eq!(pm.tick(), Some(1));
    pm.add_proc(2, info(ProgramStatus::Ready));
    pm.push_ready(2);
    assert_eq!(pm.tick(), Some(2));
    pm.block(2);
    assert_eq!(pm.tick(), Some(1));
    pm.block(1);
    assert_eq!(pm.tick(), None);
    assert_eq!(pm.get_proc(1).unwrap().status, ProgramStatus::Blocked);
}
