//! The resolution context of one recovery session, and the reconstruction of
//! task events from batches of trace packets.

use vstd::prelude::*;
use crate::error::{message_text, RecoveryError, RecoveryErrorView};
use crate::manifest::ManifestProperties;
use crate::maps::{maps_text, TaskResolveMaps};
use crate::packet::{
    event_views, packet_views, payload_views, DateTime, EventChunk, EventTimestamp, EventType,
    EventTypeView, ExceptionAction, MemoryAccessType, TaskAction, Timestamp,
    TimestampedTracePackets, TracePacket, TracePacketView, VectActive, VectActiveView,
};
use crate::text::{decimal_string, decimal_text, join, joined};

verus! {

/// What event reconstruction reads of a resolution context.
pub struct ResolutionView {
    /// The tasks bound to core exceptions, by name.
    pub exceptions: Map<Seq<char>, Seq<Seq<char>>>,
    /// The tasks bound to device interrupts, by number, each with the name of
    /// the interrupt.
    pub interrupts: Map<u16, (Seq<Seq<char>>, Seq<char>)>,
    /// The software tasks, by identifier.
    pub software: Seq<Seq<Seq<char>>>,
    /// The comparator that reports the entry of a software task.
    pub enter_id: usize,
    /// The comparator that reports the exit of a software task.
    pub exit_id: usize,
}

/// The name of a task: the segments of its path, joined by `::`.
pub open spec fn task_name(path: Seq<Seq<char>>) -> Seq<char> {
    joined(path, "::"@)
}

/// The task action that an exception action stands for.
pub open spec fn task_action(action: ExceptionAction) -> TaskAction {
    match action {
        ExceptionAction::Entered => TaskAction::Entered,
        ExceptionAction::Exited => TaskAction::Exited,
        ExceptionAction::Returned => TaskAction::Returned,
    }
}

/// The name of the hardware task that an exception belongs to, or why there
/// is none.
pub open spec fn hardware_task(r: ResolutionView, exception: VectActiveView) -> Result<
    Seq<char>,
    RecoveryErrorView,
> {
    match exception {
        VectActiveView::ThreadMode => Ok("ThreadMode"@),
        VectActiveView::Exception(name) => if r.exceptions.contains_key(name) {
            Ok(task_name(r.exceptions[name]))
        } else {
            Err(RecoveryErrorView::MissingHWLabelExceptionMap(name))
        },
        VectActiveView::Interrupt { irqn } => if r.interrupts.contains_key(irqn) {
            Ok(task_name(r.interrupts[irqn].0))
        } else {
            Err(RecoveryErrorView::MissingHWExceptionMap(irqn))
        },
    }
}

/// The bytes of a payload that are not zero, in order.
pub open spec fn nonzero_bytes(value: Seq<u8>) -> Seq<u8>
    decreases value.len(),
{
    if value.len() == 0 {
        Seq::empty()
    } else if value.last() != 0 {
        nonzero_bytes(value.drop_last()).push(value.last())
    } else {
        nonzero_bytes(value.drop_last())
    }
}

/// The task identifier that a payload carries: its one byte that is not zero.
/// A payload with no such byte, or with several, carries none.
pub open spec fn software_id(value: Seq<u8>) -> Option<u8> {
    if nonzero_bytes(value).len() == 1 {
        Some(nonzero_bytes(value)[0])
    } else {
        None
    }
}

/// The name of the software task that a payload names, or why there is none.
pub open spec fn software_task(r: ResolutionView, value: Seq<u8>) -> Result<
    Seq<char>,
    RecoveryErrorView,
> {
    match software_id(value) {
        Some(id) => if id < r.software.len() {
            Ok(task_name(r.software[id as int]))
        } else {
            Err(RecoveryErrorView::MissingSWMap(value))
        },
        None => Err(RecoveryErrorView::MissingSWMap(value)),
    }
}

/// The event that a task name, or the lack of one, makes of a packet.
pub open spec fn named_event(
    packet: TracePacketView,
    name: Result<Seq<char>, RecoveryErrorView>,
    action: TaskAction,
) -> EventTypeView {
    match name {
        Ok(name) => EventTypeView::Task { name, action },
        Err(e) => EventTypeView::Unmappable(packet, message_text(e)),
    }
}

/// The event that one packet gives; a synchronisation marker gives none.
pub open spec fn event_of(r: ResolutionView, packet: TracePacketView) -> Option<EventTypeView> {
    match packet {
        TracePacketView::Sync => None,
        TracePacketView::Overflow => Some(EventTypeView::Overflow),
        TracePacketView::ExceptionTrace { exception, action } => Some(
            named_event(packet, hardware_task(r, exception), task_action(action)),
        ),
        TracePacketView::DataTraceValue { comparator, access_type, value } => {
            if access_type != MemoryAccessType::Write {
                Some(EventTypeView::Unknown(packet))
            } else if comparator as usize == r.enter_id {
                Some(named_event(packet, software_task(r, value), TaskAction::Entered))
            } else if comparator as usize == r.exit_id {
                Some(named_event(packet, software_task(r, value), TaskAction::Exited))
            } else {
                Some(EventTypeView::Unknown(packet))
            }
        },
        TracePacketView::Other(_) => Some(EventTypeView::Unknown(packet)),
    }
}

/// The events that a sequence of packets gives, in the order of the packets.
pub open spec fn events_of(r: ResolutionView, packets: Seq<TracePacketView>) -> Seq<
    EventTypeView,
>
    decreases packets.len(),
{
    if packets.len() == 0 {
        Seq::empty()
    } else {
        match event_of(r, packets.last()) {
            Some(event) => events_of(r, packets.drop_last()).push(event),
            None => events_of(r, packets.drop_last()),
        }
    }
}

/// One `Invalid` event for each payload, in order.
pub open spec fn invalid_events(payloads: Seq<Seq<u8>>) -> Seq<EventTypeView> {
    Seq::new(payloads.len(), |i: int| EventTypeView::Invalid(payloads[i]))
}

/// The ticks of the trace clock that a reading stands for: its base and its
/// delta, each taken as 0 where the reading has none.
pub open spec fn ticks(clock: Timestamp) -> nat {
    let base: nat = match clock.base {
        Some(base) => base as nat,
        None => 0,
    };
    let delta: nat = match clock.delta {
        Some(delta) => delta as nat,
        None => 0,
    };
    base + delta
}

/// The nanoseconds that a number of ticks takes at a frequency in Hz:
/// `ticks / freq` seconds, rounded to the nearest nanosecond, a half upwards.
pub open spec fn offset_nanos(ticks: nat, freq: nat) -> nat {
    ((2 * ticks * 1_000_000_000 + freq) / (2 * freq)) as nat
}

/// The seconds of the absolute time of a clock reading.
pub open spec fn chunk_secs(reference: DateTime, clock: Timestamp, freq: u32) -> int {
    reference.secs + (reference.nanos + offset_nanos(ticks(clock), freq as nat)) / 1_000_000_000
}

/// The nanoseconds on top of `chunk_secs`.
pub open spec fn chunk_subsec_nanos(reference: DateTime, clock: Timestamp, freq: u32) -> int {
    (reference.nanos + offset_nanos(ticks(clock), freq as nat)) % 1_000_000_000
}

/// The name that a `Result` of owned values stands for.
pub open spec fn name_view(r: Result<String, RecoveryError>) -> Result<
    Seq<char>,
    RecoveryErrorView,
> {
    match r {
        Ok(name) => Ok(name@),
        Err(e) => Err(e@),
    }
}

/// All that is known of one recovery session: the application, the maps that
/// resolve its tasks, the watchpoint comparators, and the time and frequency
/// that turn trace clock ticks into absolute time.
pub struct Metadata {
    program_name: String,
    maps: TaskResolveMaps,
    manip: ManifestProperties,
    timestamp: DateTime,
    freq: u32,
    comment: Option<String>,
}

impl Metadata {
    /// The maps that resolve the tasks of the application.
    pub closed spec fn maps(&self) -> TaskResolveMaps {
        self.maps
    }

    /// What the manifest of the application declares for tracing.
    pub closed spec fn properties(&self) -> ManifestProperties {
        self.manip
    }

    /// What event reconstruction reads of this context.
    pub open spec fn resolution(&self) -> ResolutionView {
        ResolutionView {
            exceptions: self.maps().exceptions@,
            interrupts: self.maps().interrupts@,
            software: self.maps().sw_assocs@,
            enter_id: self.properties().dwt_enter_id,
            exit_id: self.properties().dwt_exit_id,
        }
    }

    /// The time at which the trace clock stood at 0.
    pub closed spec fn reference(&self) -> DateTime {
        self.timestamp
    }

    /// The frequency of the trace clock in Hz.
    pub closed spec fn frequency(&self) -> u32 {
        self.freq
    }

    /// The name of the traced program.
    pub closed spec fn name_text(&self) -> Seq<char> {
        self.program_name@
    }

    /// The operator's comment; empty where there is none.
    pub closed spec fn comment_text(&self) -> Seq<char> {
        match self.comment {
            Some(comment) => comment@,
            None => Seq::empty(),
        }
    }

    /// Assembles the context of a session.
    pub fn new(
        program_name: String,
        maps: TaskResolveMaps,
        manip: ManifestProperties,
        timestamp: DateTime,
        freq: u32,
        comment: Option<String>,
    ) -> (m: Self)
        ensures
            m.maps() == maps,
            m.properties() == manip,
            m.reference() == timestamp,
            m.frequency() == freq,
            m.name_text() == program_name@,
            m.comment_text() == match comment {
                Some(comment) => comment@,
                None => Seq::empty(),
            },
    {
        Metadata { program_name, maps, manip, timestamp, freq, comment }
    }

    /// The number of hardware tasks: those bound to core exceptions and those
    /// bound to device interrupts.
    pub fn hardware_tasks(&self) -> (n: usize)
        ensures
            n == self.resolution().exceptions.dom().len()
                + self.resolution().interrupts.dom().len(),
    {
        self.maps.exceptions.len() + self.maps.interrupts.len()
    }

    /// The number of software tasks.
    pub fn software_tasks(&self) -> (n: usize)
        ensures
            n == self.resolution().software.len(),
    {
        self.maps.sw_assocs.len()
    }

    /// The operator's comment; empty where there is none.
    pub fn comment(&self) -> (s: String)
        ensures
            s@ == self.comment_text(),
    {
        match &self.comment {
            Some(comment) => comment.clone(),
            None => String::new(),
        }
    }

    /// The name of the traced program.
    pub fn program_name(&self) -> (s: String)
        ensures
            s@ == self.name_text(),
    {
        self.program_name.clone()
    }

    /// The text that shows the context: the three maps, the reference time
    /// as the caller writes it, and the frequency of the trace clock.
    pub open spec fn description(&self, timestamp: Seq<char>) -> Seq<char> {
        maps_text(
            self.maps().exceptions.pairs(),
            self.maps().interrupts.pairs(),
            self.maps().sw_assocs@,
        ) + "\n"@ + "reset timestamp: "@ + timestamp + "\n"@ + "trace clock frequency: "@
            + decimal_text(self.frequency() as nat) + " Hz\n"@
    }

    /// Shows the context as text: the three maps as `TaskResolveMaps`
    /// shows them, then a line with the reference time, which the caller
    /// writes, and a line with the frequency of the trace clock in Hz.
    pub fn describe(&self, timestamp: &str) -> (s: String)
        ensures
            s@ == self.description(timestamp@),
    {
        let mut s = self.maps.describe();
        s.append("\n");
        s.append("reset timestamp: ");
        s.append(timestamp);
        s.append("\n");
        s.append("trace clock frequency: ");
        s.append(decimal_string(self.freq as u64).as_str());
        s.append(" Hz\n");
        s
    }

    /// Resolves an exception to the name of its hardware task. Thread mode
    /// resolves to `ThreadMode`.
    pub fn resolve_hw_task(&self, exception: &VectActive) -> (r: Result<String, RecoveryError>)
        ensures
            name_view(r) == hardware_task(self.resolution(), exception@),
    {
        match exception {
            VectActive::ThreadMode => Ok(String::from_str("ThreadMode")),
            VectActive::Exception(name) => match self.maps.exceptions.get(name.as_str()) {
                Some(path) => Ok(join(path, "::")),
                None => Err(RecoveryError::MissingHWLabelExceptionMap(name.clone())),
            },
            VectActive::Interrupt { irqn } => match self.maps.interrupts.get(*irqn) {
                Some(entry) => Ok(join(&entry.path, "::")),
                None => Err(RecoveryError::MissingHWExceptionMap(*irqn)),
            },
        }
    }

    /// Resolves the payload of a watchpoint write to the name of its software
    /// task: the payload has to hold exactly one byte that is not zero, the
    /// identifier of the task.
    pub fn resolve_sw_task(&self, value: &Vec<u8>) -> (r: Result<String, RecoveryError>)
        ensures
            name_view(r) == software_task(self.resolution(), value@),
    {
        let mut count: usize = 0;
        let mut id: u8 = 0;
        let mut i: usize = 0;
        while i < value.len()
            invariant
                i <= value.len(),
                count == nonzero_bytes(value@.take(i as int)).len(),
                count <= i,
                count > 0 ==> id == nonzero_bytes(value@.take(i as int))[0],
            decreases value.len() - i,
        {
            assert(value@.take(i + 1).drop_last() =~= value@.take(i as int));
            if value[i] != 0 {
                if count == 0 {
                    id = value[i];
                }
                count += 1;
            }
            i += 1;
        }
        assert(value@.take(value.len() as int) =~= value@);
        if count == 1 {
            match self.maps.sw_assocs.get(id as usize) {
                Some(path) => Ok(join(path, "::")),
                None => Err(RecoveryError::MissingSWMap(value.clone())),
            }
        } else {
            Err(RecoveryError::MissingSWMap(value.clone()))
        }
    }

    fn named(packet: &TracePacket, name: Result<String, RecoveryError>, action: TaskAction) -> (e:
        EventType)
        ensures
            e@ == named_event(packet@, name_view(name), action),
    {
        match name {
            Ok(name) => EventType::Task { name, action },
            Err(e) => EventType::Unmappable(packet.clone(), e.message()),
        }
    }

    /// The event that one packet gives; a synchronisation marker gives none.
    pub fn event(&self, packet: &TracePacket) -> (e: Option<EventType>)
        ensures
            match e {
                Some(e) => event_of(self.resolution(), packet@) == Some(e@),
                None => event_of(self.resolution(), packet@) is None,
            },
    {
        match packet {
            TracePacket::Sync => None,
            TracePacket::Overflow => Some(EventType::Overflow),
            TracePacket::ExceptionTrace { exception, action } => {
                let action = match action {
                    ExceptionAction::Entered => TaskAction::Entered,
                    ExceptionAction::Exited => TaskAction::Exited,
                    ExceptionAction::Returned => TaskAction::Returned,
                };
                Some(Self::named(packet, self.resolve_hw_task(exception), action))
            },
            TracePacket::DataTraceValue { comparator, access_type, value } => {
                match access_type {
                    MemoryAccessType::Read => Some(EventType::Unknown(packet.clone())),
                    MemoryAccessType::Write => {
                        if *comparator as usize == self.manip.dwt_enter_id {
                            Some(
                                Self::named(
                                    packet,
                                    self.resolve_sw_task(value),
                                    TaskAction::Entered,
                                ),
                            )
                        } else if *comparator as usize == self.manip.dwt_exit_id {
                            Some(
                                Self::named(packet, self.resolve_sw_task(value), TaskAction::Exited),
                            )
                        } else {
                            Some(EventType::Unknown(packet.clone()))
                        }
                    },
                }
            },
            TracePacket::Other(_) => Some(EventType::Unknown(packet.clone())),
        }
    }

    fn time_parts(&self, clock: &Timestamp) -> (t: (i128, u32))
        requires
            self.frequency() > 0,
        ensures
            t.0 == chunk_secs(self.reference(), *clock, self.frequency()),
            t.1 == chunk_subsec_nanos(self.reference(), *clock, self.frequency()),
    {
        let base: u128 = match clock.base {
            Some(base) => base as u128,
            None => 0,
        };
        let delta: u128 = match clock.delta {
            Some(delta) => delta as u128,
            None => 0,
        };
        let ticks: u128 = base + delta;
        let freq: u128 = self.freq as u128;
        let offset: u128 = (2 * ticks * 1_000_000_000 + freq) / (2 * freq);
        let sub: u128 = self.timestamp.nanos as u128 + offset;
        let carry: u128 = sub / 1_000_000_000;
        let nanos: u128 = sub % 1_000_000_000;
        (self.timestamp.secs as i128 + carry as i128, nanos as u32)
    }

    /// The absolute time of a reading of the trace clock: the reference time
    /// of the session and the time that the ticks of the reading take at the
    /// frequency of the trace clock, rounded to the nearest nanosecond.
    pub fn absolute_time(&self, clock: &Timestamp) -> (t: DateTime)
        requires
            self.frequency() > 0,
            chunk_secs(self.reference(), *clock, self.frequency()) <= i64::MAX,
        ensures
            t.secs == chunk_secs(self.reference(), *clock, self.frequency()),
            t.nanos == chunk_subsec_nanos(self.reference(), *clock, self.frequency()),
    {
        let (secs, nanos) = self.time_parts(clock);
        DateTime { secs: secs as i64, nanos }
    }

    /// The absolute time of a reading of the trace clock as `absolute_time`
    /// gives it, or `None` where there is none: at a frequency of 0, and
    /// where the seconds of the time are beyond `i64`.
    pub fn checked_absolute_time(&self, clock: &Timestamp) -> (t: Option<DateTime>)
        ensures
            match t {
                Some(t) => {
                    &&& self.frequency() > 0
                    &&& chunk_secs(self.reference(), *clock, self.frequency()) <= i64::MAX
                    &&& t.secs == chunk_secs(self.reference(), *clock, self.frequency())
                    &&& t.nanos == chunk_subsec_nanos(self.reference(), *clock, self.frequency())
                },
                None => self.frequency() == 0 || chunk_secs(
                    self.reference(),
                    *clock,
                    self.frequency(),
                ) > i64::MAX,
            },
    {
        if self.freq == 0 {
            return None;
        }
        let (secs, nanos) = self.time_parts(clock);
        if secs > i64::MAX as i128 {
            None
        } else {
            Some(DateTime { secs: secs as i64, nanos })
        }
    }

    /// Reconstructs the task events of one batch of packets.
    ///
    /// The events of the decoded packets come first, in the order of the
    /// packets; a synchronisation marker gives no event. One `Invalid` event
    /// for each payload that the decoder could not read follows, in their
    /// order. The chunk carries the absolute time of the batch.
    pub fn build_event_chunk(&self, packets: TimestampedTracePackets) -> (chunk: EventChunk)
        requires
            packets.timestamp.delta is Some,
            self.frequency() > 0,
            chunk_secs(self.reference(), packets.timestamp, self.frequency()) <= i64::MAX,
        ensures
            chunk.timestamp.ts.secs == chunk_secs(
                self.reference(),
                packets.timestamp,
                self.frequency(),
            ),
            chunk.timestamp.ts.nanos == chunk_subsec_nanos(
                self.reference(),
                packets.timestamp,
                self.frequency(),
            ),
            chunk.timestamp.data_relation == packets.timestamp.data_relation,
            chunk.timestamp.diverged == packets.timestamp.diverged,
            event_views(chunk.events@) == events_of(
                self.resolution(),
                packet_views(packets.packets@),
            ) + invalid_events(payload_views(packets.malformed_packets@)),
    {
        let timestamp = EventTimestamp {
            ts: self.absolute_time(&packets.timestamp),
            data_relation: packets.timestamp.data_relation,
            diverged: packets.timestamp.diverged,
        };
        let ghost all = packet_views(packets.packets@);
        let ghost payloads = payload_views(packets.malformed_packets@);
        let mut events: Vec<EventType> = Vec::new();
        let mut i: usize = 0;
        while i < packets.packets.len()
            invariant
                i <= packets.packets.len(),
                all == packet_views(packets.packets@),
                event_views(events@) == events_of(self.resolution(), all.take(i as int)),
            decreases packets.packets.len() - i,
        {
            assert(all.take(i + 1).drop_last() =~= all.take(i as int));
            let ghost before = event_views(events@);
            match self.event(&packets.packets[i]) {
                Some(event) => {
                    events.push(event);
                    assert(event_views(events@) =~= before.push(event@));
                },
                None => {},
            }
            i += 1;
        }
        assert(all.take(packets.packets.len() as int) =~= all);
        let ghost decoded = event_views(events@);
        let mut j: usize = 0;
        while j < packets.malformed_packets.len()
            invariant
                j <= packets.malformed_packets.len(),
                payloads == payload_views(packets.malformed_packets@),
                event_views(events@) == decoded + invalid_events(payloads.take(j as int)),
            decreases packets.malformed_packets.len() - j,
        {
            let ghost before = event_views(events@);
            let payload = packets.malformed_packets[j].clone();
            events.push(EventType::Invalid(payload));
            assert(event_views(events@) =~= before.push(EventTypeView::Invalid(payload@)));
            assert(event_views(events@) =~= decoded + invalid_events(payloads.take(j + 1)));
            j += 1;
        }
        assert(payloads.take(packets.malformed_packets.len() as int) =~= payloads);
        EventChunk { timestamp, events }
    }
}

/// The events of two runs of packets, one after the other, are the events of
/// the first run followed by those of the second.
pub proof fn lemma_events_concat(
    r: ResolutionView,
    first: Seq<TracePacketView>,
    second: Seq<TracePacketView>,
)
    ensures
        events_of(r, first + second) == events_of(r, first) + events_of(r, second),
    decreases second.len(),
{
    if second.len() == 0 {
        assert(first + second =~= first);
        assert(events_of(r, first) + events_of(r, second) =~= events_of(r, first));
    } else {
        assert((first + second).drop_last() =~= first + second.drop_last());
        assert((first + second).last() == second.last());
        lemma_events_concat(r, first, second.drop_last());
        match event_of(r, second.last()) {
            Some(event) => {
                assert(events_of(r, first + second) =~= events_of(r, first) + events_of(
                    r,
                    second,
                ));
            },
            None => {},
        }
    }
}

/// A packet that gives an event gives exactly that one event, wherever it
/// stands in a batch: what comes before it and after it is decoded as
/// without it.
pub proof fn lemma_event_in_batch(
    r: ResolutionView,
    before: Seq<TracePacketView>,
    packet: TracePacketView,
    after: Seq<TracePacketView>,
)
    requires
        event_of(r, packet) is Some,
    ensures
        events_of(r, before.push(packet) + after) == events_of(r, before).push(
            event_of(r, packet).unwrap(),
        ) + events_of(r, after),
{
    lemma_events_concat(r, before.push(packet), after);
    assert(before.push(packet).drop_last() =~= before);
}

/// A batch gives no more events than it holds decoded packets.
pub proof fn lemma_one_event_at_most(r: ResolutionView, packets: Seq<TracePacketView>)
    ensures
        events_of(r, packets).len() <= packets.len(),
    decreases packets.len(),
{
    if packets.len() > 0 {
        lemma_one_event_at_most(r, packets.drop_last());
    }
}

/// In the events of a batch, the events of the decoded packets come first and
/// in their order; the payloads that could not be decoded follow as `Invalid`
/// events, each with its payload and in their order.
pub proof fn lemma_malformed_pass_through(
    r: ResolutionView,
    packets: Seq<TracePacketView>,
    payloads: Seq<Seq<u8>>,
)
    ensures
        ({
            let decoded = events_of(r, packets);
            let all = decoded + invalid_events(payloads);
            &&& all.len() == decoded.len() + payloads.len()
            &&& forall|i: int| 0 <= i < decoded.len() ==> all[i] == decoded[i]
            &&& forall|j: int|
                0 <= j < payloads.len() ==> all[decoded.len() + j] == EventTypeView::Invalid(
                    payloads[j],
                )
        }),
{
}

/// An exception packet that cites a core exception or a device interrupt to
/// which no task is bound gives exactly one `Unmappable` event, which carries
/// the packet; the packets around it are decoded as without it.
pub proof fn lemma_unmappable_on_miss(
    r: ResolutionView,
    before: Seq<TracePacketView>,
    exception: VectActiveView,
    action: ExceptionAction,
    after: Seq<TracePacketView>,
)
    requires
        match exception {
            VectActiveView::ThreadMode => false,
            VectActiveView::Exception(name) => !r.exceptions.contains_key(name),
            VectActiveView::Interrupt { irqn } => !r.interrupts.contains_key(irqn),
        },
    ensures
        ({
            let packet = TracePacketView::ExceptionTrace { exception, action };
            let reason = match exception {
                VectActiveView::Exception(name) => message_text(
                    RecoveryErrorView::MissingHWLabelExceptionMap(name),
                ),
                VectActiveView::Interrupt { irqn } => message_text(
                    RecoveryErrorView::MissingHWExceptionMap(irqn),
                ),
                VectActiveView::ThreadMode => Seq::empty(),
            };
            &&& event_of(r, packet) == Some(EventTypeView::Unmappable(packet, reason))
            &&& events_of(r, before.push(packet) + after) == events_of(r, before).push(
                EventTypeView::Unmappable(packet, reason),
            ) + events_of(r, after)
        }),
{
    let packet = TracePacketView::ExceptionTrace { exception, action };
    lemma_event_in_batch(r, before, packet, after);
}

/// A write on one of the two software task comparators whose payload holds
/// no byte that is not zero, or several, gives an `Unmappable` event, never a
/// `Task` event.
pub proof fn lemma_ambiguous_write_unmappable(r: ResolutionView, comparator: u8, value: Seq<u8>)
    requires
        comparator as usize == r.enter_id || comparator as usize == r.exit_id,
        nonzero_bytes(value).len() != 1,
    ensures
        ({
            let packet = TracePacketView::DataTraceValue {
                comparator,
                access_type: MemoryAccessType::Write,
                value,
            };
            event_of(r, packet) == Some(
                EventTypeView::Unmappable(
                    packet,
                    message_text(RecoveryErrorView::MissingSWMap(value)),
                ),
            )
        }),
{
}

/// A packet that names a task of the application: an exception packet whose
/// exception resolves, or a write on one of the two software task
/// comparators whose payload resolves.
pub open spec fn names_task(r: ResolutionView, packet: TracePacketView) -> bool {
    match packet {
        TracePacketView::ExceptionTrace { exception, action } => hardware_task(r, exception) is Ok,
        TracePacketView::DataTraceValue { comparator, access_type, value } => {
            &&& access_type == MemoryAccessType::Write
            &&& comparator as usize == r.enter_id || comparator as usize == r.exit_id
            &&& software_task(r, value) is Ok
        },
        _ => false,
    }
}

/// The `Task` event of a packet that names a task.
pub open spec fn task_event(r: ResolutionView, packet: TracePacketView) -> EventTypeView {
    match packet {
        TracePacketView::ExceptionTrace { exception, action } => EventTypeView::Task {
            name: hardware_task(r, exception)->Ok_0,
            action: task_action(action),
        },
        TracePacketView::DataTraceValue { comparator, access_type, value } => EventTypeView::Task {
            name: software_task(r, value)->Ok_0,
            action: if comparator as usize == r.enter_id {
                TaskAction::Entered
            } else {
                TaskAction::Exited
            },
        },
        _ => EventTypeView::Overflow,
    }
}

/// A batch in which every packet names a task gives one `Task` event for each
/// packet, in order, with the name and the action of that packet's task.
pub proof fn lemma_round_trip(r: ResolutionView, packets: Seq<TracePacketView>)
    requires
        forall|i: int| 0 <= i < packets.len() ==> names_task(r, #[trigger] packets[i]),
    ensures
        events_of(r, packets).len() == packets.len(),
        forall|i: int|
            0 <= i < packets.len() ==> #[trigger] events_of(r, packets)[i] == task_event(
                r,
                packets[i],
            ),
    decreases packets.len(),
{
    if packets.len() > 0 {
        let front = packets.drop_last();
        assert forall|i: int| 0 <= i < front.len() implies names_task(r, #[trigger] front[i]) by {
            assert(front[i] == packets[i]);
        }
        lemma_round_trip(r, front);
        assert(names_task(r, packets[packets.len() - 1]));
        assert(event_of(r, packets.last()) == Some(task_event(r, packets.last())));
        assert forall|i: int| 0 <= i < packets.len() implies #[trigger] events_of(r, packets)[i]
            == task_event(r, packets[i]) by {
            if i < front.len() {
                assert(events_of(r, packets)[i] == events_of(r, front)[i]);
                assert(front[i] == packets[i]);
            }
        }
    }
}

/// The time that ticks take is the nearest whole number of nanoseconds to
/// `ticks / freq` seconds: it is off by at most half a nanosecond, and a half
/// is rounded upwards.
pub proof fn lemma_offset_is_nearest(ticks: nat, freq: nat)
    requires
        freq > 0,
    ensures
        2 * ticks * 1_000_000_000 - freq < 2 * freq * offset_nanos(ticks, freq) <= 2 * ticks
            * 1_000_000_000 + freq,
{
    let x = (2 * ticks * 1_000_000_000 + freq) as int;
    let d = (2 * freq) as int;
    vstd::arithmetic::div_mod::lemma_fundamental_div_mod(x, d);
    vstd::arithmetic::div_mod::lemma_mod_bound(x, d);
    vstd::arithmetic::div_mod::lemma_div_pos_is_pos(x, d);
    assert(x == d * (x / d) + x % d);
    assert(0 <= x % d < d);
    assert(offset_nanos(ticks, freq) == x / d);
}

/// The absolute time of a clock reading is the reference time and the time
/// that the ticks of the reading take, with less than a second of it held as
/// nanoseconds.
pub proof fn lemma_chunk_time(reference: DateTime, clock: Timestamp, freq: u32)
    requires
        freq > 0,
    ensures
        chunk_secs(reference, clock, freq) * 1_000_000_000 + chunk_subsec_nanos(
            reference,
            clock,
            freq,
        ) == reference.total_nanos() + offset_nanos(ticks(clock), freq as nat),
        0 <= chunk_subsec_nanos(reference, clock, freq) < 1_000_000_000,
{
    let sub = (reference.nanos + offset_nanos(ticks(clock), freq as nat)) as int;
    vstd::arithmetic::div_mod::lemma_fundamental_div_mod(sub, 1_000_000_000);
    vstd::arithmetic::div_mod::lemma_mod_bound(sub, 1_000_000_000);
}

} // verus!
