use rtic_scope_recovery::manifest::ManifestProperties;
use rtic_scope_recovery::maps::{ExceptionMap, InterruptMap, SoftwareTaskMap};
use rtic_scope_recovery::packet::{
    DateTime, EventType, ExceptionAction, MemoryAccessType, TaskAction, Timestamp,
    TimestampDataRelation, TimestampedTracePackets, TracePacket, VectActive,
};
use rtic_scope_recovery::{Metadata, TaskResolveMaps};

const T0: i64 = 1_704_067_200;

fn path(parts: &[&str]) -> Vec<String> {
    parts.iter().map(|p| p.to_string()).collect()
}

fn context_at(timestamp: DateTime, freq: u32) -> Metadata {
    let mut exceptions = ExceptionMap::new();
    exceptions.insert("SysTick".to_string(), path(&["app", "tick"]));
    exceptions.insert("PendSV".to_string(), path(&["app", "pend"]));
    let mut interrupts = InterruptMap::new();
    interrupts.insert(6, path(&["app", "button"]), "EXTI0".to_string());
    interrupts.insert(28, path(&["app", "timer"]), "TIM2".to_string());
    let mut sw_assocs = SoftwareTaskMap::new();
    sw_assocs.push(path(&["app", "zero"]));
    sw_assocs.push(path(&["app", "one"]));
    sw_assocs.push(path(&["app", "scope", "two"]));
    sw_assocs.push(path(&["app", "three"]));
    Metadata::new(
        "blinky".to_string(),
        TaskResolveMaps { exceptions, interrupts, sw_assocs },
        ManifestProperties {
            pac_name: "stm32f4".to_string(),
            pac_version: "0.13".to_string(),
            pac_features: vec!["stm32f401".to_string()],
            interrupt_path: "stm32f4::stm32f401::Interrupt".to_string(),
            dwt_enter_id: 1,
            dwt_exit_id: 2,
        },
        timestamp,
        freq,
        Some("first run".to_string()),
    )
}

fn context() -> Metadata {
    context_at(DateTime { secs: T0, nanos: 0 }, 1_000_000)
}

fn clock(base: Option<usize>, delta: usize) -> Timestamp {
    Timestamp { base, delta: Some(delta), data_relation: None, diverged: false }
}

fn batch(packets: Vec<TracePacket>, malformed_packets: Vec<Vec<u8>>) -> TimestampedTracePackets {
    TimestampedTracePackets {
        timestamp: clock(None, 0),
        packets,
        malformed_packets,
        packets_consumed: 0,
    }
}

fn exception(exception: VectActive, action: ExceptionAction) -> TracePacket {
    TracePacket::ExceptionTrace { exception, action }
}

fn write(comparator: u8, value: Vec<u8>) -> TracePacket {
    TracePacket::DataTraceValue { comparator, access_type: MemoryAccessType::Write, value }
}

fn task(name: &str, action: TaskAction) -> EventType {
    EventType::Task { name: name.to_string(), action }
}

#[test]
fn getters_return_what_the_context_was_made_of() {
    let ctx = context();
    assert_eq!(ctx.program_name(), "blinky");
    assert_eq!(ctx.comment(), "first run");
    assert_eq!(ctx.hardware_tasks(), 4);
    assert_eq!(ctx.software_tasks(), 4);
    let bare = Metadata::new(
        "bare".to_string(),
        TaskResolveMaps {
            exceptions: ExceptionMap::new(),
            interrupts: InterruptMap::new(),
            sw_assocs: SoftwareTaskMap::new(),
        },
        ManifestProperties {
            pac_name: String::new(),
            pac_version: String::new(),
            pac_features: vec![],
            interrupt_path: String::new(),
            dwt_enter_id: 1,
            dwt_exit_id: 2,
        },
        DateTime { secs: 0, nanos: 0 },
        1,
        None,
    );
    assert_eq!(bare.comment(), "");
    assert_eq!(bare.hardware_tasks(), 0);
    assert_eq!(bare.software_tasks(), 0);
}

#[test]
fn round_trip_resolution() {
    let ctx = context();
    let chunk = ctx.build_event_chunk(batch(
        vec![
            exception(VectActive::Exception("SysTick".to_string()), ExceptionAction::Entered),
            exception(VectActive::Exception("PendSV".to_string()), ExceptionAction::Exited),
            exception(VectActive::Interrupt { irqn: 6 }, ExceptionAction::Returned),
            exception(VectActive::Interrupt { irqn: 28 }, ExceptionAction::Entered),
            write(1, vec![1]),
            write(2, vec![2]),
            write(1, vec![3]),
        ],
        vec![],
    ));
    assert_eq!(
        chunk.events,
        vec![
            task("app::tick", TaskAction::Entered),
            task("app::pend", TaskAction::Exited),
            task("app::button", TaskAction::Returned),
            task("app::timer", TaskAction::Entered),
            task("app::one", TaskAction::Entered),
            task("app::scope::two", TaskAction::Exited),
            task("app::three", TaskAction::Entered),
        ]
    );
}

#[test]
fn thread_mode_is_a_task_of_its_own() {
    let ctx = context();
    let chunk = ctx.build_event_chunk(batch(
        vec![exception(VectActive::ThreadMode, ExceptionAction::Returned)],
        vec![],
    ));
    assert_eq!(chunk.events, vec![task("ThreadMode", TaskAction::Returned)]);
}

#[test]
fn unmappable_on_miss() {
    let ctx = context();
    let unknown_name = exception(
        VectActive::Exception("HardFault".to_string()),
        ExceptionAction::Entered,
    );
    let unknown_number = exception(VectActive::Interrupt { irqn: 7 }, ExceptionAction::Exited);
    let chunk = ctx.build_event_chunk(batch(
        vec![
            unknown_name.clone(),
            exception(VectActive::Exception("SysTick".to_string()), ExceptionAction::Entered),
            unknown_number.clone(),
            write(2, vec![1]),
        ],
        vec![],
    ));
    assert_eq!(
        chunk.events,
        vec![
            EventType::Unmappable(
                unknown_name,
                "The IRQ (HardFault) -> RTIC task mapping does not exist".to_string()
            ),
            task("app::tick", TaskAction::Entered),
            EventType::Unmappable(
                unknown_number,
                "The IRQ (7) -> RTIC task mapping does not exist".to_string()
            ),
            task("app::one", TaskAction::Exited),
        ]
    );
}

#[test]
fn timestamp_arithmetic() {
    let ctx = context();
    let mut packets = batch(vec![], vec![]);
    packets.timestamp = Timestamp {
        base: Some(0),
        delta: Some(2_500_000),
        data_relation: Some(TimestampDataRelation::Sync),
        diverged: true,
    };
    let chunk = ctx.build_event_chunk(packets);
    assert_eq!(chunk.timestamp.ts, DateTime { secs: T0 + 2, nanos: 500_000_000 });
    assert_eq!(chunk.timestamp.data_relation, Some(TimestampDataRelation::Sync));
    assert!(chunk.timestamp.diverged);
    assert!(chunk.events.is_empty());
}

#[test]
fn timestamp_adds_base_and_delta() {
    let ctx = context();
    let t = ctx.absolute_time(&clock(Some(1_000_000), 250_000));
    assert_eq!(t, DateTime { secs: T0 + 1, nanos: 250_000_000 });
    let t = ctx.absolute_time(&clock(None, 1));
    assert_eq!(t, DateTime { secs: T0, nanos: 1_000 });
}

#[test]
fn timestamp_rounds_to_the_nearest_nanosecond() {
    let third = context_at(DateTime { secs: T0, nanos: 0 }, 3);
    assert_eq!(third.absolute_time(&clock(None, 1)), DateTime { secs: T0, nanos: 333_333_333 });
    assert_eq!(third.absolute_time(&clock(None, 2)), DateTime { secs: T0, nanos: 666_666_667 });
    assert_eq!(third.absolute_time(&clock(None, 3)), DateTime { secs: T0 + 1, nanos: 0 });
    let fast = context_at(DateTime { secs: T0, nanos: 0 }, 2_000_000_000);
    assert_eq!(fast.absolute_time(&clock(None, 1)), DateTime { secs: T0, nanos: 1 });
    let faster = context_at(DateTime { secs: T0, nanos: 0 }, 4_000_000_000);
    assert_eq!(faster.absolute_time(&clock(None, 1)), DateTime { secs: T0, nanos: 0 });
    assert_eq!(faster.absolute_time(&clock(None, 2)), DateTime { secs: T0, nanos: 1 });
    assert_eq!(faster.absolute_time(&clock(None, 3)), DateTime { secs: T0, nanos: 1 });
}

#[test]
fn timestamp_carries_nanoseconds_into_seconds() {
    let ctx = context_at(DateTime { secs: -1, nanos: 999_999_999 }, 1_000_000_000);
    assert_eq!(ctx.absolute_time(&clock(None, 1)), DateTime { secs: 0, nanos: 0 });
    assert_eq!(ctx.absolute_time(&clock(None, 0)), DateTime { secs: -1, nanos: 999_999_999 });
    let large = context_at(DateTime { secs: 0, nanos: 0 }, 1);
    assert_eq!(
        large.absolute_time(&clock(Some(4_000_000_000), 5)),
        DateTime { secs: 4_000_000_005, nanos: 0 }
    );
}

#[test]
fn checked_time_is_none_where_there_is_no_time() {
    let ctx = context();
    assert_eq!(
        ctx.checked_absolute_time(&clock(Some(0), 2_500_000)),
        Some(DateTime { secs: T0 + 2, nanos: 500_000_000 })
    );
    let still = context_at(DateTime { secs: T0, nanos: 0 }, 0);
    assert_eq!(still.checked_absolute_time(&clock(None, 1)), None);
    let late = context_at(DateTime { secs: i64::MAX, nanos: 999_999_999 }, 1_000_000_000);
    assert_eq!(
        late.checked_absolute_time(&clock(None, 0)),
        Some(DateTime { secs: i64::MAX, nanos: 999_999_999 })
    );
    assert_eq!(late.checked_absolute_time(&clock(None, 1)), None);
}

#[test]
fn malformed_passthrough() {
    let ctx = context();
    let chunk = ctx.build_event_chunk(batch(
        vec![
            exception(VectActive::Exception("SysTick".to_string()), ExceptionAction::Entered),
            TracePacket::Overflow,
        ],
        vec![vec![0xde, 0xad]],
    ));
    assert_eq!(
        chunk.events,
        vec![
            task("app::tick", TaskAction::Entered),
            EventType::Overflow,
            EventType::Invalid(vec![0xde, 0xad]),
        ]
    );
}

#[test]
fn malformed_payloads_keep_their_order() {
    let ctx = context();
    let chunk = ctx.build_event_chunk(batch(vec![], vec![vec![1], vec![], vec![2, 3]]));
    assert_eq!(
        chunk.events,
        vec![
            EventType::Invalid(vec![1]),
            EventType::Invalid(vec![]),
            EventType::Invalid(vec![2, 3]),
        ]
    );
}

#[test]
fn ambiguous_software_write() {
    let ctx = context();
    let packet = write(1, vec![3, 5]);
    let chunk = ctx.build_event_chunk(batch(vec![packet.clone()], vec![]));
    assert_eq!(
        chunk.events,
        vec![EventType::Unmappable(
            packet,
            "The DataTraceValue ([3, 5]) -> RTIC task mapping does not exist".to_string()
        )]
    );
}

#[test]
fn write_without_an_identifier_is_unmappable() {
    let ctx = context();
    let empty = write(1, vec![]);
    let zeros = write(2, vec![0, 0]);
    let chunk = ctx.build_event_chunk(batch(vec![empty.clone(), zeros.clone()], vec![]));
    assert_eq!(
        chunk.events,
        vec![
            EventType::Unmappable(
                empty,
                "The DataTraceValue ([]) -> RTIC task mapping does not exist".to_string()
            ),
            EventType::Unmappable(
                zeros,
                "The DataTraceValue ([0, 0]) -> RTIC task mapping does not exist".to_string()
            ),
        ]
    );
}

#[test]
fn identifier_is_the_one_byte_that_is_not_zero() {
    let ctx = context();
    let chunk = ctx.build_event_chunk(batch(
        vec![write(1, vec![0, 2]), write(2, vec![3, 0, 0, 0])],
        vec![],
    ));
    assert_eq!(
        chunk.events,
        vec![task("app::scope::two", TaskAction::Entered), task("app::three", TaskAction::Exited)]
    );
}

#[test]
fn write_of_an_unknown_identifier_is_unmappable() {
    let ctx = context();
    let packet = write(1, vec![9]);
    let chunk = ctx.build_event_chunk(batch(vec![packet.clone()], vec![]));
    assert_eq!(
        chunk.events,
        vec![EventType::Unmappable(
            packet,
            "The DataTraceValue ([9]) -> RTIC task mapping does not exist".to_string()
        )]
    );
}

#[test]
fn packets_that_tell_nothing_of_tasks_are_unknown() {
    let ctx = context();
    let read = TracePacket::DataTraceValue {
        comparator: 1,
        access_type: MemoryAccessType::Read,
        value: vec![1],
    };
    let elsewhere = write(3, vec![1]);
    let other = TracePacket::Other(vec![0x17, 0x01]);
    let chunk = ctx.build_event_chunk(batch(
        vec![read.clone(), elsewhere.clone(), other.clone()],
        vec![],
    ));
    assert_eq!(
        chunk.events,
        vec![
            EventType::Unknown(read),
            EventType::Unknown(elsewhere),
            EventType::Unknown(other),
        ]
    );
}

#[test]
fn sync_gives_no_event() {
    let ctx = context();
    let chunk = ctx.build_event_chunk(batch(
        vec![TracePacket::Sync, TracePacket::Overflow, TracePacket::Sync],
        vec![],
    ));
    assert_eq!(chunk.events, vec![EventType::Overflow]);
    assert_eq!(ctx.event(&TracePacket::Sync), None);
    assert_eq!(ctx.event(&TracePacket::Overflow), Some(EventType::Overflow));
}

#[test]
fn resolve_functions_report_what_is_missing() {
    let ctx = context();
    assert_eq!(
        ctx.resolve_hw_task(&VectActive::Exception("SysTick".to_string())),
        Ok("app::tick".to_string())
    );
    assert_eq!(
        ctx.resolve_hw_task(&VectActive::Exception("NMI".to_string())),
        Err(rtic_scope_recovery::RecoveryError::MissingHWLabelExceptionMap("NMI".to_string()))
    );
    assert_eq!(
        ctx.resolve_hw_task(&VectActive::Interrupt { irqn: 300 }),
        Err(rtic_scope_recovery::RecoveryError::MissingHWExceptionMap(300))
    );
    assert_eq!(ctx.resolve_sw_task(&vec![2]), Ok("app::scope::two".to_string()));
    assert_eq!(
        ctx.resolve_sw_task(&vec![1, 2]),
        Err(rtic_scope_recovery::RecoveryError::MissingSWMap(vec![1, 2]))
    );
}
