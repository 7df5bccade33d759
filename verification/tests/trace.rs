use flightpanel::cli::{
    bus_line, channel_line, longest_execution, lowest_low_line, reset_line, switch_lines, Cli,
    CliCommand, CliPacket, CliReply, ProfileSummary,
};
use flightpanel::expander::Panel;
use flightpanel::lines::{Line, TransferError};
use flightpanel::trace::{
    find_wake, reset_profile, set_task_name, take_profile, SystemProfile, TaskProfile, TaskState,
    TraceState, Wake, _embassy_trace_executor_idle, _embassy_trace_poll_start,
    _embassy_trace_task_exec_begin, _embassy_trace_task_exec_end,
    _embassy_trace_task_ready_begin, MAX_TASKS, NO_TASK_ID,
};
use flightpanel::trace_switch::{is_trace_on, ENABLE_TRACE};

fn shown(name: &'static str, run_ticks: u64, longest_execution: u64) -> TaskProfile {
    TaskProfile { name, run_ticks, longest_execution }
}

#[test]
fn new_task_is_unknown() {
    let task = TaskState::new();
    assert_eq!(task.name, "unknown");
    assert_eq!(task.task_id, NO_TASK_ID);
    assert_eq!((task.start_time, task.run_time, task.longest_exec), (0, 0, 0));
}

#[test]
fn tasks_are_listed_once() {
    let mut trace = TraceState::new();
    assert_eq!(trace.tasks.len(), 0);
    trace.name_task(7, "seven");
    trace.name_task(9, "nine");
    trace.start_task(7, 100);
    assert_eq!(trace.tasks.len(), 2);
    assert_eq!(trace.tasks[0].name, "seven");
    assert_eq!(trace.tasks[0].start_time, 100);
    assert_eq!(trace.tasks[1].name, "nine");
    assert_eq!(trace.tasks[1].start_time, 0);
    assert_eq!(trace.with_task(9).unwrap().task_id, 9);
}

#[test]
fn tasks_beyond_the_room_are_passed_over() {
    let mut trace = TraceState::new();
    for task_id in 0..MAX_TASKS as u32 {
        assert!(trace.with_task(task_id).is_some());
    }
    assert!(trace.with_task(99).is_none());
    trace.name_task(99, "late");
    assert_eq!(trace.tasks.len(), MAX_TASKS);
    trace.name_task(15, "last");
    assert_eq!(trace.tasks[15].name, "last");
}

#[test]
fn run_time_is_the_time_between() {
    let mut trace = TraceState::new();
    trace.start_task(1, 1_000);
    assert!(trace.can_stop_task(1, 1_000));
    assert!(!trace.can_stop_task(1, 999));
    trace.stop_task(1, 1_300);
    trace.start_task(1, 2_000);
    trace.stop_task(1, 2_100);
    assert_eq!(trace.tasks[0].run_time, 400);
    assert_eq!(trace.tasks[0].longest_exec, 300);
    assert!(trace.can_stop_task(2, 5));
}

#[test]
fn every_tick_is_idle_or_busy() {
    let mut trace = TraceState::new();
    trace.executor_busy(100);
    trace.executor_idle(130);
    trace.executor_busy(200);
    assert_eq!(trace.profile, SystemProfile { idle_ticks: 170, busy_ticks: 30 });
    assert_eq!(trace.executor_transition_time, 200);
    trace.profile.busy_ticks = u64::MAX - 1;
    trace.executor_idle(300);
    assert_eq!(trace.profile.busy_ticks, u64::MAX);
}

#[test]
fn clearing_keeps_the_tasks() {
    let mut trace = TraceState::new();
    trace.name_task(1, "one");
    trace.start_task(1, 0);
    trace.stop_task(1, 50);
    trace.executor_busy(60);
    trace.clear();
    let profile = trace.snapshot();
    assert_eq!(profile.system, SystemProfile::new());
    assert_eq!(profile.tasks.as_slice(), &[shown("one", 0, 0)]);
}

#[test]
fn snapshot_shows_every_task() {
    let mut trace = TraceState::new();
    trace.name_task(1, "one");
    trace.name_task(2, "two");
    trace.start_task(2, 10);
    trace.stop_task(2, 35);
    trace.executor_busy(5);
    let profile = trace.snapshot();
    assert_eq!(profile.system, SystemProfile { idle_ticks: 5, busy_ticks: 0 });
    assert_eq!(profile.tasks.as_slice(), &[shown("one", 0, 0), shown("two", 25, 25)]);
}

#[test]
fn hooks_do_nothing_without_a_trace() {
    let mut trace = TraceState::new();
    set_task_name(&mut trace, 1, "one");
    _embassy_trace_poll_start(&mut trace, 10);
    _embassy_trace_task_exec_begin(&mut trace, 1, 10);
    _embassy_trace_task_exec_end(&mut trace, 1, 20);
    _embassy_trace_executor_idle(&mut trace, 30);
    assert_eq!(trace.tasks.len(), 0);
    assert_eq!(trace.profile, SystemProfile::new());
    assert_eq!(trace.executor_transition_time, 0);
    trace.name_task(1, "one");
    trace.executor_busy(10);
    reset_profile(&mut trace);
    assert_eq!(trace.profile.idle_ticks, 10);
    let profile = take_profile(&trace);
    assert_eq!(profile.system, SystemProfile::new());
    assert_eq!(profile.tasks.len(), 0);
    assert_eq!(_embassy_trace_task_ready_begin(&[1; MAX_TASKS], 1, 5_000), None);
}

#[test]
fn wakes_are_stamped_in_milliseconds() {
    let mut task_ids = [NO_TASK_ID; MAX_TASKS];
    task_ids[4] = 77;
    task_ids[6] = 77;
    assert_eq!(find_wake(&task_ids, 77, 5_999), Some(Wake { entry: 4, millis: 5 }));
    assert_eq!(find_wake(&task_ids, 78, 5_999), None);
    assert_eq!(find_wake(&task_ids, NO_TASK_ID, 0), Some(Wake { entry: 0, millis: 0 }));
    let wrapped = (0x1_0000_0000u64 + 3) * 1000;
    assert_eq!(find_wake(&task_ids, 77, wrapped), Some(Wake { entry: 4, millis: 3 }));
}

#[test]
fn packets_are_numbered() {
    let mut cli = Cli::new();
    assert_eq!(cli.receive(b"", 0), None);
    assert_eq!(
        cli.receive(b"profile", 3),
        Some(CliPacket { number: 0, len: 3, first: b'p', command: CliCommand::Profile })
    );
    assert_eq!(cli.receive(b"m", 0), None);
    assert_eq!(
        cli.receive(b"m", 1),
        Some(CliPacket { number: 1, len: 1, first: b'm', command: CliCommand::Memory })
    );
    assert_eq!(cli.receive(b"i", 1).unwrap().command, CliCommand::I2c);
    assert_eq!(cli.receive(b"a", 1).unwrap().command, CliCommand::Analog);
    assert_eq!(cli.receive(b"b", 1).unwrap().command, CliCommand::Buttons);
    assert_eq!(cli.receive(b"x", 1).unwrap().command, CliCommand::Unknown);
    assert_eq!(cli.count, 6);
}

#[test]
fn lowest_low_lines() {
    assert_eq!(lowest_low_line(u64::MAX), None);
    assert_eq!(lowest_low_line(0), Some(0));
    assert_eq!(lowest_low_line(0b10111), Some(3));
    assert_eq!(lowest_low_line(u64::MAX >> 1), Some(63));
}

#[test]
fn longest_execution_is_the_last_of_equals() {
    assert_eq!(longest_execution(&[]), None);
    let tasks = [shown("a", 1, 5), shown("b", 2, 9), shown("c", 3, 9), shown("d", 4, 2)];
    assert_eq!(longest_execution(&tasks), Some(tasks[2]));
}

#[test]
fn summary_ranks_the_tasks() {
    let mut trace = TraceState::new();
    for (task_id, name, run) in [(1, "one", 30), (2, "two", 10), (3, "three", 20)] {
        trace.name_task(task_id, name);
        trace.start_task(task_id, 0);
        trace.stop_task(task_id, run);
    }
    trace.executor_busy(100);
    trace.executor_idle(160);
    let summary = ProfileSummary::new(trace.snapshot());
    assert_eq!(summary.total_ticks, 160);
    assert_eq!(summary.busy_ticks, 60);
    assert_eq!(summary.longest, Some(shown("one", 30, 30)));
    assert_eq!(summary.len(), 3);
    assert_eq!(
        summary.longest_line(),
        Some(Line::LongestExecution { name: "one", ticks: 30 })
    );
    for (rank, name, ticks) in [(0, "one", 30), (1, "three", 20), (2, "two", 10)] {
        assert_eq!(
            summary.task_line(rank),
            Line::TaskTime { name, run_ticks: ticks, longest: ticks }
        );
    }
    let answer: Vec<Line> = (0..9).map_while(|step| summary.answer_line(step, 7, 9)).collect();
    assert_eq!(
        answer,
        vec![
            Line::LongestExecution { name: "one", ticks: 30 },
            Line::TaskTime { name: "one", run_ticks: 30, longest: 30 },
            Line::TaskTime { name: "three", run_ticks: 20, longest: 20 },
            Line::TaskTime { name: "two", run_ticks: 10, longest: 10 },
            Line::ResetTime { ticks: 2 },
        ]
    );
    assert_eq!(summary.answer_line(usize::MAX, 7, 9), None);
}

#[test]
fn summary_of_nothing() {
    let summary = ProfileSummary::new(take_profile(&TraceState::new()));
    assert_eq!(summary.total_ticks, 0);
    assert_eq!(summary.longest, None);
    assert_eq!(summary.longest_line(), None);
    assert_eq!(summary.len(), 0);
    assert_eq!(summary.answer_line(0, 4, 4), Some(Line::ResetTime { ticks: 0 }));
    assert_eq!(summary.answer_line(1, 4, 4), None);
}

#[test]
fn answers_of_the_console() {
    let mut panel = Panel::new();
    panel.duration = 75;
    panel.final_value = 0xff00;
    assert_eq!(bus_line(&panel), Line::BusRound { duration: 75, value: 0xff00 });
    let channels = [0, 1, 2, 3, 4, 5, 6, 2064];
    assert_eq!(channel_line(&channels, 7), Line::Channel { index: 7, raw: 2064, mapped: 1 });
    assert_eq!(reset_line(40, 100), Line::ResetTime { ticks: 60 });
    assert_eq!(
        switch_lines(0b1011),
        (Line::SwitchLines { value: 0b1011 }, Some(Line::LowestLowLine { line: 2 }))
    );
    assert_eq!(switch_lines(u64::MAX), (Line::SwitchLines { value: u64::MAX }, None));
    let packet = Cli { count: 4 }.receive(b"zz", 2).unwrap();
    assert_eq!(packet.line(), Line::Packet { number: 4, len: 2, first: b'z' });
}

#[test]
fn trace_is_off() {
    assert!(!is_trace_on());
    assert_eq!(is_trace_on(), ENABLE_TRACE);
}

#[test]
fn run_of_reads() {
    let mut cli = Cli::new();
    let mut packet = [0; 128];
    packet[0] = b'b';
    let noted = |number, len, first, command| CliReply {
        line: Some(Line::Packet { number, len, first }),
        command,
    };
    let error = TransferError::BufferOverflow;
    assert_eq!(cli.handle(&packet, Ok(128)), noted(0, 128, b'b', CliCommand::Buttons));
    assert_eq!(
        cli.handle(&packet, Ok(0)),
        CliReply { line: None, command: CliCommand::Unknown }
    );
    assert_eq!(
        cli.handle(&packet, Err(error)),
        CliReply { line: Some(Line::ReadError { error }), command: CliCommand::Unknown }
    );
    packet[0] = b'B';
    assert_eq!(cli.handle(&packet, Ok(1)), noted(1, 1, b'B', CliCommand::Unknown));
    packet[0] = b'm';
    assert_eq!(cli.handle(&packet, Ok(2)), noted(2, 2, b'm', CliCommand::Memory));
    assert_eq!(cli.count, 3);
}

#[test]
fn lookups_find_the_first_of_several() {
    let mut trace = TraceState::new();
    trace.name_task(1, "one");
    trace.name_task(2, "two");
    trace.tasks[1].task_id = 1;
    trace.name_task(1, "first");
    assert_eq!(trace.tasks[0].name, "first");
    assert_eq!(trace.tasks[1].name, "two");
    assert_eq!(trace.with_task(2).unwrap().name, "unknown");
    assert_eq!(trace.tasks.len(), 3);
}
