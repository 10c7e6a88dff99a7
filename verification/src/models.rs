//! Messages and their wire frames.
//!
//! A frame is one tag byte, which names the kind of the message, followed by
//! the bytes of its payload. The tag table is part of the wire contract.

use vstd::prelude::*;
use vstd::slice::slice_subrange;
use crate::error::{EncodeError, FrameError};
use crate::payload::{
    decode_payload, encode_payload, lemma_payload_round_trip, parse_payload, payload_bytes,
    payload_writable, valid_number, FieldView, Payload,
};

verus! {

/// The kinds of message that the bridge relays.
#[derive(Debug, Clone, Copy, PartialEq, Eq, Structural)]
pub enum MessageKind {
    SensorBatch,
    SystemStatus,
    HardwareStatus,
    ClockModulation,
    TestCase,
    SimulationState,
    TestResult,
    TimeSync,
    FaultInjection,
    ActuatorCommand,
    Heartbeat,
    Ack,
}

/// The number of message kinds, and the largest tag.
pub const KIND_COUNT: u8 = 12;

impl MessageKind {
    /// The tag byte of this kind.
    pub open spec fn spec_tag(self) -> u8 {
        match self {
            MessageKind::SensorBatch => 1,
            MessageKind::SystemStatus => 2,
            MessageKind::HardwareStatus => 3,
            MessageKind::ClockModulation => 4,
            MessageKind::TestCase => 5,
            MessageKind::SimulationState => 6,
            MessageKind::TestResult => 7,
            MessageKind::TimeSync => 8,
            MessageKind::FaultInjection => 9,
            MessageKind::ActuatorCommand => 10,
            MessageKind::Heartbeat => 11,
            MessageKind::Ack => 12,
        }
    }

    /// The kind that a tag byte names, if any.
    pub open spec fn spec_from_tag(tag: u8) -> Option<MessageKind> {
        if tag == 1 {
            Some(MessageKind::SensorBatch)
        } else if tag == 2 {
            Some(MessageKind::SystemStatus)
        } else if tag == 3 {
            Some(MessageKind::HardwareStatus)
        } else if tag == 4 {
            Some(MessageKind::ClockModulation)
        } else if tag == 5 {
            Some(MessageKind::TestCase)
        } else if tag == 6 {
            Some(MessageKind::SimulationState)
        } else if tag == 7 {
            Some(MessageKind::TestResult)
        } else if tag == 8 {
            Some(MessageKind::TimeSync)
        } else if tag == 9 {
            Some(MessageKind::FaultInjection)
        } else if tag == 10 {
            Some(MessageKind::ActuatorCommand)
        } else if tag == 11 {
            Some(MessageKind::Heartbeat)
        } else if tag == 12 {
            Some(MessageKind::Ack)
        } else {
            None
        }
    }

    /// The tag byte of this kind: between 1 and 12.
    pub fn tag(self) -> (t: u8)
        ensures
            t == self.spec_tag(),
            1 <= t <= KIND_COUNT,
    {
        match self {
            MessageKind::SensorBatch => 1,
            MessageKind::SystemStatus => 2,
            MessageKind::HardwareStatus => 3,
            MessageKind::ClockModulation => 4,
            MessageKind::TestCase => 5,
            MessageKind::SimulationState => 6,
            MessageKind::TestResult => 7,
            MessageKind::TimeSync => 8,
            MessageKind::FaultInjection => 9,
            MessageKind::ActuatorCommand => 10,
            MessageKind::Heartbeat => 11,
            MessageKind::Ack => 12,
        }
    }

    /// The kind that `tag` names: some kind exactly for the tags 1 to 12.
    pub fn from_tag(tag: u8) -> (r: Option<MessageKind>)
        ensures
            r == Self::spec_from_tag(tag),
            r is Some <==> 1 <= tag <= KIND_COUNT,
            r matches Some(kind) ==> kind.spec_tag() == tag,
    {
        match tag {
            1 => Some(MessageKind::SensorBatch),
            2 => Some(MessageKind::SystemStatus),
            3 => Some(MessageKind::HardwareStatus),
            4 => Some(MessageKind::ClockModulation),
            5 => Some(MessageKind::TestCase),
            6 => Some(MessageKind::SimulationState),
            7 => Some(MessageKind::TestResult),
            8 => Some(MessageKind::TimeSync),
            9 => Some(MessageKind::FaultInjection),
            10 => Some(MessageKind::ActuatorCommand),
            11 => Some(MessageKind::Heartbeat),
            12 => Some(MessageKind::Ack),
            _ => None,
        }
    }
}

/// The tag table is one to one: each kind has a tag of its own, and the tag
/// names that kind again.
pub proof fn lemma_tag_table(kind: MessageKind)
    ensures
        1 <= kind.spec_tag() <= KIND_COUNT,
        MessageKind::spec_from_tag(kind.spec_tag()) == Some(kind),
{
}

/// A message: a payload under one of the twelve kinds.
#[derive(Debug)]
pub enum MessageWrapper {
    SensorBatch(Payload),
    SystemStatus(Payload),
    HardwareStatus(Payload),
    ClockModulation(Payload),
    TestCase(Payload),
    SimulationState(Payload),
    TestResult(Payload),
    TimeSync(Payload),
    FaultInjection(Payload),
    ActuatorCommand(Payload),
    Heartbeat(Payload),
    Ack(Payload),
}

/// A message as contracts see it: its kind and the fields of its payload.
pub struct MessageView {
    pub kind: MessageKind,
    pub payload: Seq<FieldView>,
}

impl View for MessageWrapper {
    type V = MessageView;

    open spec fn view(&self) -> MessageView {
        match self {
            MessageWrapper::SensorBatch(p) => MessageView {
                kind: MessageKind::SensorBatch,
                payload: p@,
            },
            MessageWrapper::SystemStatus(p) => MessageView {
                kind: MessageKind::SystemStatus,
                payload: p@,
            },
            MessageWrapper::HardwareStatus(p) => MessageView {
                kind: MessageKind::HardwareStatus,
                payload: p@,
            },
            MessageWrapper::ClockModulation(p) => MessageView {
                kind: MessageKind::ClockModulation,
                payload: p@,
            },
            MessageWrapper::TestCase(p) => MessageView { kind: MessageKind::TestCase, payload: p@ },
            MessageWrapper::SimulationState(p) => MessageView {
                kind: MessageKind::SimulationState,
                payload: p@,
            },
            MessageWrapper::TestResult(p) => MessageView {
                kind: MessageKind::TestResult,
                payload: p@,
            },
            MessageWrapper::TimeSync(p) => MessageView { kind: MessageKind::TimeSync, payload: p@ },
            MessageWrapper::FaultInjection(p) => MessageView {
                kind: MessageKind::FaultInjection,
                payload: p@,
            },
            MessageWrapper::ActuatorCommand(p) => MessageView {
                kind: MessageKind::ActuatorCommand,
                payload: p@,
            },
            MessageWrapper::Heartbeat(p) => MessageView {
                kind: MessageKind::Heartbeat,
                payload: p@,
            },
            MessageWrapper::Ack(p) => MessageView { kind: MessageKind::Ack, payload: p@ },
        }
    }
}

/// The frame of a message: its tag, then the bytes of its payload.
pub open spec fn frame_bytes(message: MessageView) -> Seq<u8> {
    seq![message.kind.spec_tag()] + payload_bytes(message.payload)
}

/// What a frame holds: the message, or the reason why it holds none.
pub open spec fn parse_frame(bytes: Seq<u8>) -> Result<MessageView, FrameError> {
    if bytes.len() == 0 {
        Err(FrameError::EmptyFrame)
    } else {
        match MessageKind::spec_from_tag(bytes[0]) {
            None => Err(FrameError::UnknownKind(bytes[0])),
            Some(kind) => match parse_payload(bytes.skip(1)) {
                Some(payload) => Ok(MessageView { kind, payload }),
                None => Err(FrameError::MalformedPayload),
            },
        }
    }
}

/// Decoding undoes encoding: the frame of a message whose payload can be
/// written holds that message, equal in kind and in every field.
pub proof fn lemma_frame_round_trip(message: MessageView)
    requires
        payload_writable(message.payload),
    ensures
        parse_frame(frame_bytes(message)) == Ok::<MessageView, FrameError>(message),
{
    let bytes = frame_bytes(message);
    lemma_tag_table(message.kind);
    lemma_payload_round_trip(message.payload);
    assert(bytes[0] == message.kind.spec_tag());
    assert(bytes.skip(1) =~= payload_bytes(message.payload));
}

impl Clone for MessageWrapper {
    fn clone(&self) -> (r: Self)
        ensures
            r@ == self@,
    {
        MessageWrapper::new(self.kind(), self.payload().clone())
    }
}

impl MessageWrapper {
    pub const ID_SENSOR_BATCH: u8 = 1;

    pub const ID_SYSTEM_STATUS: u8 = 2;

    pub const ID_HARDWARE_STATUS: u8 = 3;

    pub const ID_CLOCK_MODULATION: u8 = 4;

    pub const ID_TEST_CASE: u8 = 5;

    pub const ID_SIMULATION_STATE: u8 = 6;

    pub const ID_TEST_RESULT: u8 = 7;

    pub const ID_TIME_SYNC: u8 = 8;

    pub const ID_FAULT_INJECTION: u8 = 9;

    pub const ID_ACTUATOR_COMMAND: u8 = 10;

    pub const ID_HEARTBEAT: u8 = 11;

    pub const ID_ACK: u8 = 12;

    /// The message of kind `kind` that carries `payload`.
    pub fn new(kind: MessageKind, payload: Payload) -> (r: Self)
        ensures
            r@ == (MessageView { kind, payload: payload@ }),
    {
        match kind {
            MessageKind::SensorBatch => MessageWrapper::SensorBatch(payload),
            MessageKind::SystemStatus => MessageWrapper::SystemStatus(payload),
            MessageKind::HardwareStatus => MessageWrapper::HardwareStatus(payload),
            MessageKind::ClockModulation => MessageWrapper::ClockModulation(payload),
            MessageKind::TestCase => MessageWrapper::TestCase(payload),
            MessageKind::SimulationState => MessageWrapper::SimulationState(payload),
            MessageKind::TestResult => MessageWrapper::TestResult(payload),
            MessageKind::TimeSync => MessageWrapper::TimeSync(payload),
            MessageKind::FaultInjection => MessageWrapper::FaultInjection(payload),
            MessageKind::ActuatorCommand => MessageWrapper::ActuatorCommand(payload),
            MessageKind::Heartbeat => MessageWrapper::Heartbeat(payload),
            MessageKind::Ack => MessageWrapper::Ack(payload),
        }
    }

    /// The kind of this message.
    pub fn kind(&self) -> (k: MessageKind)
        ensures
            k == self@.kind,
    {
        match self {
            MessageWrapper::SensorBatch(_) => MessageKind::SensorBatch,
            MessageWrapper::SystemStatus(_) => MessageKind::SystemStatus,
            MessageWrapper::HardwareStatus(_) => MessageKind::HardwareStatus,
            MessageWrapper::ClockModulation(_) => MessageKind::ClockModulation,
            MessageWrapper::TestCase(_) => MessageKind::TestCase,
            MessageWrapper::SimulationState(_) => MessageKind::SimulationState,
            MessageWrapper::TestResult(_) => MessageKind::TestResult,
            MessageWrapper::TimeSync(_) => MessageKind::TimeSync,
            MessageWrapper::FaultInjection(_) => MessageKind::FaultInjection,
            MessageWrapper::ActuatorCommand(_) => MessageKind::ActuatorCommand,
            MessageWrapper::Heartbeat(_) => MessageKind::Heartbeat,
            MessageWrapper::Ack(_) => MessageKind::Ack,
        }
    }

    /// The payload of this message.
    pub fn payload(&self) -> (p: &Payload)
        ensures
            p@ == self@.payload,
    {
        match self {
            MessageWrapper::SensorBatch(p) => p,
            MessageWrapper::SystemStatus(p) => p,
            MessageWrapper::HardwareStatus(p) => p,
            MessageWrapper::ClockModulation(p) => p,
            MessageWrapper::TestCase(p) => p,
            MessageWrapper::SimulationState(p) => p,
            MessageWrapper::TestResult(p) => p,
            MessageWrapper::TimeSync(p) => p,
            MessageWrapper::FaultInjection(p) => p,
            MessageWrapper::ActuatorCommand(p) => p,
            MessageWrapper::Heartbeat(p) => p,
            MessageWrapper::Ack(p) => p,
        }
    }

    /// Writes the frame of this message: the tag of its kind, then its
    /// payload. Fails on the first field whose number no key can carry, and
    /// only then.
    pub fn to_bytes(&self) -> (r: Result<Vec<u8>, EncodeError>)
        ensures
            match r {
                Ok(bytes) => payload_writable(self@.payload) && bytes@ == frame_bytes(self@),
                Err(EncodeError::InvalidFieldNumber { index, number }) => {
                    &&& index < self@.payload.len()
                    &&& number == self@.payload[index as int].number
                    &&& !valid_number(number)
                    &&& forall|j: int|
                        0 <= j < index ==> valid_number(#[trigger] self@.payload[j].number)
                },
            },
    {
        let mut buf: Vec<u8> = Vec::new();
        buf.push(self.kind().tag());
        match encode_payload(self.payload()) {
            Ok(body) => {
                let mut body = body;
                buf.append(&mut body);
                assert(buf@ =~= frame_bytes(self@));
                Ok(buf)
            },
            Err(e) => Err(e),
        }
    }

    /// Reads a frame. Fails with `EmptyFrame` on no bytes, with `UnknownKind`
    /// where the first byte is no tag, and with `MalformedPayload` where the
    /// bytes after a known tag are not a payload; gives the message
    /// otherwise.
    pub fn from_bytes(buf: &[u8]) -> (r: Result<Self, FrameError>)
        ensures
            match parse_frame(buf@) {
                Ok(message) => r matches Ok(m) && m@ == message && payload_writable(m@.payload),
                Err(e) => r matches Err(x) && x == e,
            },
    {
        if buf.len() == 0 {
            return Err(FrameError::EmptyFrame);
        }
        let id: u8 = buf[0];
        let payload = slice_subrange(buf, 1, buf.len());
        assert(payload@ =~= buf@.skip(1));
        match MessageKind::from_tag(id) {
            None => Err(FrameError::UnknownKind(id)),
            Some(kind) => match decode_payload(payload) {
                Ok(fields) => Ok(MessageWrapper::new(kind, fields)),
                Err(e) => Err(e),
            },
        }
    }
}

} // verus!
