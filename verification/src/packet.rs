//! Decoded trace packets, as the decoder of the trace stream hands them over,
//! and the events that are recovered from them.

use vstd::prelude::*;

verus! {

/// What happened to an exception, as the trace reports it.
#[derive(Clone, Copy, PartialEq, Eq, Structural, Debug)]
pub enum ExceptionAction {
    Entered,
    Exited,
    Returned,
}

/// What happened to a task.
#[derive(Clone, Copy, PartialEq, Eq, Structural, Debug)]
pub enum TaskAction {
    Entered,
    Exited,
    Returned,
}

/// The direction of a memory access that a watchpoint saw.
#[derive(Clone, Copy, PartialEq, Eq, Structural, Debug)]
pub enum MemoryAccessType {
    Read,
    Write,
}

/// How the timestamp of a batch relates to the packets in it.
#[derive(Clone, Copy, PartialEq, Eq, Structural, Debug)]
pub enum TimestampDataRelation {
    Sync,
    UnknownDelay,
    AssocEventDelay,
    UnknownAssocEventDelay,
}

/// What the processor was executing: no exception, a core exception given by
/// its name, or a device interrupt given by its number.
#[derive(PartialEq, Eq, Debug)]
pub enum VectActive {
    ThreadMode,
    Exception(String),
    Interrupt { irqn: u16 },
}

/// A `VectActive` over mathematical values.
pub enum VectActiveView {
    ThreadMode,
    Exception(Seq<char>),
    Interrupt { irqn: u16 },
}

impl View for VectActive {
    type V = VectActiveView;

    open spec fn view(&self) -> VectActiveView {
        match self {
            VectActive::ThreadMode => VectActiveView::ThreadMode,
            VectActive::Exception(name) => VectActiveView::Exception(name@),
            VectActive::Interrupt { irqn } => VectActiveView::Interrupt { irqn: *irqn },
        }
    }
}

impl Clone for VectActive {
    fn clone(&self) -> (r: Self)
        ensures
            r@ == self@,
    {
        match self {
            VectActive::ThreadMode => VectActive::ThreadMode,
            VectActive::Exception(name) => VectActive::Exception(name.clone()),
            VectActive::Interrupt { irqn } => VectActive::Interrupt { irqn: *irqn },
        }
    }
}

/// One decoded packet of the trace stream.
#[derive(PartialEq, Eq, Debug)]
pub enum TracePacket {
    /// A synchronisation marker: it carries no data.
    Sync,
    /// The target dropped packets.
    Overflow,
    /// An exception was entered, exited or returned to.
    ExceptionTrace { exception: VectActive, action: ExceptionAction },
    /// A watchpoint saw an access to its address.
    DataTraceValue { comparator: u8, access_type: MemoryAccessType, value: Vec<u8> },
    /// A packet of any other kind, as its bytes.
    Other(Vec<u8>),
}

/// A `TracePacket` over mathematical values.
pub enum TracePacketView {
    Sync,
    Overflow,
    ExceptionTrace { exception: VectActiveView, action: ExceptionAction },
    DataTraceValue { comparator: u8, access_type: MemoryAccessType, value: Seq<u8> },
    Other(Seq<u8>),
}

impl View for TracePacket {
    type V = TracePacketView;

    open spec fn view(&self) -> TracePacketView {
        match self {
            TracePacket::Sync => TracePacketView::Sync,
            TracePacket::Overflow => TracePacketView::Overflow,
            TracePacket::ExceptionTrace { exception, action } => TracePacketView::ExceptionTrace {
                exception: exception@,
                action: *action,
            },
            TracePacket::DataTraceValue {
                comparator,
                access_type,
                value,
            } => TracePacketView::DataTraceValue {
                comparator: *comparator,
                access_type: *access_type,
                value: value@,
            },
            TracePacket::Other(bytes) => TracePacketView::Other(bytes@),
        }
    }
}

impl Clone for TracePacket {
    fn clone(&self) -> (r: Self)
        ensures
            r@ == self@,
    {
        match self {
            TracePacket::Sync => TracePacket::Sync,
            TracePacket::Overflow => TracePacket::Overflow,
            TracePacket::ExceptionTrace { exception, action } => TracePacket::ExceptionTrace {
                exception: exception.clone(),
                action: *action,
            },
            TracePacket::DataTraceValue {
                comparator,
                access_type,
                value,
            } => TracePacket::DataTraceValue {
                comparator: *comparator,
                access_type: *access_type,
                value: value.clone(),
            },
            TracePacket::Other(bytes) => TracePacket::Other(bytes.clone()),
        }
    }
}

/// The views of a sequence of packets, one for one.
pub open spec fn packet_views(packets: Seq<TracePacket>) -> Seq<TracePacketView> {
    Seq::new(packets.len(), |i: int| packets[i]@)
}

/// The views of a sequence of payloads, one for one.
pub open spec fn payload_views(payloads: Seq<Vec<u8>>) -> Seq<Seq<u8>> {
    Seq::new(payloads.len(), |i: int| payloads[i]@)
}

/// The reading of the trace clock that comes with a batch of packets, in
/// ticks: an optional base and the delta since it.
#[derive(Clone, Copy, PartialEq, Eq, Debug)]
pub struct Timestamp {
    pub base: Option<usize>,
    pub delta: Option<usize>,
    pub data_relation: Option<TimestampDataRelation>,
    pub diverged: bool,
}

/// A batch of packets under one reading of the trace clock: the packets that
/// were decoded, and the payloads that could not be.
#[derive(PartialEq, Eq, Debug)]
pub struct TimestampedTracePackets {
    pub timestamp: Timestamp,
    pub packets: Vec<TracePacket>,
    pub malformed_packets: Vec<Vec<u8>>,
    pub packets_consumed: usize,
}

/// A point in time: seconds since the Unix epoch, and nanoseconds on top.
#[derive(Clone, Copy, PartialEq, Eq, Debug)]
pub struct DateTime {
    pub secs: i64,
    pub nanos: u32,
}

impl DateTime {
    /// The point in time in nanoseconds since the Unix epoch.
    pub open spec fn total_nanos(&self) -> int {
        self.secs * 1_000_000_000 + self.nanos
    }
}

/// The absolute timestamp of a chunk of events.
#[derive(Clone, Copy, PartialEq, Eq, Debug)]
pub struct EventTimestamp {
    pub ts: DateTime,
    pub data_relation: Option<TimestampDataRelation>,
    pub diverged: bool,
}

/// What a packet tells about the tasks of the application.
#[derive(PartialEq, Eq, Debug)]
pub enum EventType {
    /// The target dropped packets.
    Overflow,
    /// A task was entered, exited or returned to.
    Task { name: String, action: TaskAction },
    /// A packet that tells nothing about tasks.
    Unknown(TracePacket),
    /// A packet that names no task of the application, with the reason.
    Unmappable(TracePacket, String),
    /// A payload that the decoder could not read.
    Invalid(Vec<u8>),
}

/// An `EventType` over mathematical values.
pub enum EventTypeView {
    Overflow,
    Task { name: Seq<char>, action: TaskAction },
    Unknown(TracePacketView),
    Unmappable(TracePacketView, Seq<char>),
    Invalid(Seq<u8>),
}

impl View for EventType {
    type V = EventTypeView;

    open spec fn view(&self) -> EventTypeView {
        match self {
            EventType::Overflow => EventTypeView::Overflow,
            EventType::Task { name, action } => EventTypeView::Task {
                name: name@,
                action: *action,
            },
            EventType::Unknown(packet) => EventTypeView::Unknown(packet@),
            EventType::Unmappable(packet, reason) => EventTypeView::Unmappable(packet@, reason@),
            EventType::Invalid(payload) => EventTypeView::Invalid(payload@),
        }
    }
}

/// The views of a sequence of events, one for one.
pub open spec fn event_views(events: Seq<EventType>) -> Seq<EventTypeView> {
    Seq::new(events.len(), |i: int| events[i]@)
}

/// The events of one batch of packets, under the absolute time of the batch.
#[derive(PartialEq, Eq, Debug)]
pub struct EventChunk {
    pub timestamp: EventTimestamp,
    pub events: Vec<EventType>,
}

} // verus!
