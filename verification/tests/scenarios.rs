use gx_rust_nextion::components::attribute::{
    AttributeSpec, EnumKind, Value, ValueRange, WireKind,
};
use gx_rust_nextion::components::channel;
use gx_rust_nextion::components::objects::{
    NextionObject, NextionObjectDisplay, TextHorizontalAlignment,
};
use gx_rust_nextion::components::BaseInfo;
use gx_rust_nextion::nextion::codec::frame_command;
use gx_rust_nextion::nextion::device::Nextion;
use gx_rust_nextion::nextion::exchange::{Expect, Reply};
use gx_rust_nextion::nextion::number::IntWidth;
use gx_rust_nextion::nextion::transport::{Transport, TransportFault};
use gx_rust_nextion::nextion::{ComError, ErrorKind};

/// What was done with the transport.
#[derive(Debug, PartialEq, Eq, Clone)]
enum Done {
    Write(Vec<u8>),
    Flush,
    Read,
}

/// A transport in memory: it records every operation, hands out the bytes it
/// was given and then fails, and fails the operation with the index `fault`.
struct Wire {
    done: Vec<Done>,
    incoming: Vec<u8>,
    given: usize,
    fault: Option<usize>,
}

fn wire(incoming: &[u8]) -> Wire {
    Wire { done: Vec::new(), incoming: incoming.to_vec(), given: 0, fault: None }
}

fn faulty(incoming: &[u8], fault: usize) -> Wire {
    Wire { done: Vec::new(), incoming: incoming.to_vec(), given: 0, fault: Some(fault) }
}

impl Wire {
    fn record(&mut self, op: Done) -> Result<(), TransportFault> {
        self.done.push(op);
        if self.fault == Some(self.done.len() - 1) {
            Err(TransportFault)
        } else {
            Ok(())
        }
    }
}

impl Transport for Wire {
    fn write_all(&mut self, bytes: &[u8]) -> Result<(), TransportFault> {
        self.record(Done::Write(bytes.to_vec()))
    }

    fn flush(&mut self) -> Result<(), TransportFault> {
        self.record(Done::Flush)
    }

    fn read(&mut self) -> Result<u8, TransportFault> {
        self.record(Done::Read)?;
        if self.given < self.incoming.len() {
            self.given += 1;
            Ok(self.incoming[self.given - 1])
        } else {
            Err(TransportFault)
        }
    }
}

const TXT: AttributeSpec<'static> = AttributeSpec {
    key: "txt",
    wire_kind: WireKind::Text,
    valid_range: None,
    set_capacity: 265,
    get_capacity: 24,
};

const EN: AttributeSpec<'static> = AttributeSpec {
    key: "en",
    wire_kind: WireKind::Integer(IntWidth::U8),
    valid_range: Some(ValueRange { min: 0, max: 1 }),
    set_capacity: 23,
    get_capacity: 23,
};

const VAL: AttributeSpec<'static> = AttributeSpec {
    key: "val",
    wire_kind: WireKind::Integer(IntWidth::I32),
    valid_range: None,
    set_capacity: 32,
    get_capacity: 32,
};

const XCEN: AttributeSpec<'static> = AttributeSpec {
    key: "xcen",
    wire_kind: WireKind::Enum(EnumKind::HorizontalAlignment),
    valid_range: None,
    set_capacity: 25,
    get_capacity: 25,
};

#[test]
fn setting_a_text_writes_exactly_the_assignment_and_the_terminator() {
    let mut device = Nextion::new(wire(&[]));
    let handle: NextionObjectDisplay<fn()> = NextionObjectDisplay::bind(0, 0, "t0");
    assert_eq!(handle.get_page_id(), 0);
    assert_eq!(handle.get_component_id(), 0);
    assert_eq!(channel::set(&mut device, &handle, &TXT, Value::Text("Hello")), Ok(()));
    let mut expected = b"t0.txt=Hello".to_vec();
    expected.extend_from_slice(&[0xFF, 0xFF, 0xFF]);
    assert_eq!(device.get_peripheral().done, vec![Done::Write(expected), Done::Flush]);
}

#[test]
fn a_refused_value_causes_no_write() {
    let mut device = Nextion::new(wire(&[]));
    let handle: NextionObjectDisplay<fn()> = NextionObjectDisplay::bind(0, 2, "tm0");
    let result = channel::set(&mut device, &handle, &EN, Value::Integer(2));
    assert_eq!(result, Err(ComError::ValueOutOfRange));
    assert_eq!(result.err().unwrap().kind(), ErrorKind::Validation);
    assert!(device.get_peripheral().done.is_empty());
    assert_eq!(channel::set(&mut device, &handle, &EN, Value::Integer(1)), Ok(()));
    assert_eq!(
        device.get_peripheral().done,
        vec![Done::Write(b"tm0.en=1\xFF\xFF\xFF".to_vec()), Done::Flush]
    );
}

#[test]
fn a_refused_channel_causes_no_write() {
    let mut device = Nextion::new(wire(&[]));
    let result = channel::add_data(&mut device, 3, 5, 100);
    assert_eq!(result, Err(ComError::ValueOutOfRange));
    assert_eq!(result.err().unwrap().kind(), ErrorKind::Validation);
    assert!(device.get_peripheral().done.is_empty());
    assert_eq!(channel::clear_channel(&mut device, 3, 5), Err(ComError::ValueOutOfRange));
    assert!(device.get_peripheral().done.is_empty());
    assert_eq!(channel::add_data(&mut device, 3, 4, 100), Ok(()));
    assert_eq!(channel::clear_channel(&mut device, 3, 4), Ok(()));
    assert_eq!(
        device.get_peripheral().done,
        vec![
            Done::Write(b"add 3,4,100\xFF\xFF\xFF".to_vec()),
            Done::Flush,
            Done::Write(b"cle 3,4\xFF\xFF\xFF".to_vec()),
            Done::Flush,
        ]
    );
}

#[test]
fn a_command_that_is_too_long_causes_no_write() {
    let mut device = Nextion::new(wire(&[]));
    let handle = NextionObject::bind(0, 1, "a_name_far_too_long_for_the_buffer");
    assert_eq!(
        channel::set(&mut device, &handle, &EN, Value::Integer(1)),
        Err(ComError::CommandTooLong)
    );
    let mut out = [0u8; 4];
    assert_eq!(channel::get(&mut device, &handle, &EN, &mut out), Err(ComError::CommandTooLong));
    assert!(device.get_peripheral().done.is_empty());
}

#[test]
fn a_fault_of_the_write_ends_a_set_before_the_flush() {
    let mut device = Nextion::new(faulty(&[], 0));
    let handle = NextionObject::bind(0, 1, "n0");
    assert_eq!(
        channel::set(&mut device, &handle, &VAL, Value::Integer(7)),
        Err(ComError::TransportWriteFailed)
    );
    assert_eq!(device.get_peripheral().done, vec![Done::Write(b"n0.val=7\xFF\xFF\xFF".to_vec())]);
}

#[test]
fn a_fault_of_the_flush_fails_a_set() {
    let mut device = Nextion::new(faulty(&[], 1));
    let handle = NextionObject::bind(0, 1, "n0");
    assert_eq!(
        channel::set(&mut device, &handle, &VAL, Value::Integer(7)),
        Err(ComError::TransportWriteFailed)
    );
    assert_eq!(
        device.get_peripheral().done,
        vec![Done::Write(b"n0.val=7\xFF\xFF\xFF".to_vec()), Done::Flush]
    );
}

#[test]
fn getting_a_number_writes_the_query_and_reads_eight_bytes() {
    let mut device = Nextion::new(wire(&[0x71, 0xD6, 0xFF, 0xFF, 0xFF, 0xFF, 0xFF, 0xFF, 0x65]));
    let handle = NextionObject::bind(0, 1, "n0");
    let mut out: [u8; 0] = [];
    assert_eq!(channel::get(&mut device, &handle, &VAL, &mut out), Ok(Value::Integer(-42)));
    let mut expected = vec![Done::Write(b"get n0.val\xFF\xFF\xFF".to_vec()), Done::Flush];
    expected.extend(vec![Done::Read; 8]);
    assert_eq!(device.get_peripheral().done, expected);
}

#[test]
fn getting_a_text_reads_up_to_the_terminator() {
    let mut device = Nextion::new(wire(b"\x70Hello\xFF\xFF\xFF\x65"));
    let handle = NextionObject::bind(0, 1, "t0");
    let mut out = [0u8; 16];
    assert_eq!(channel::get(&mut device, &handle, &TXT, &mut out), Ok(Value::Text(5)));
    assert_eq!(&out[..5], b"Hello");
    let mut expected = vec![Done::Write(b"get t0.txt\xFF\xFF\xFF".to_vec()), Done::Flush];
    expected.extend(vec![Done::Read; 9]);
    assert_eq!(device.get_peripheral().done, expected);
}

#[test]
fn getting_a_variant_converts_the_code() {
    let mut device = Nextion::new(wire(&[0x71, 2, 0, 0, 0, 0xFF, 0xFF, 0xFF]));
    let handle = NextionObject::bind(0, 1, "t0");
    let mut out: [u8; 0] = [];
    assert_eq!(
        channel::get(&mut device, &handle, &XCEN, &mut out),
        Ok(Value::HorizontalAlignment(TextHorizontalAlignment::Right))
    );
    let mut device = Nextion::new(wire(&[0x71, 3, 0, 0, 0, 0xFF, 0xFF, 0xFF]));
    assert_eq!(
        channel::get(&mut device, &handle, &XCEN, &mut out),
        Err(ComError::InvalidValue)
    );
}

#[test]
fn a_fault_of_the_write_ends_a_get_before_any_read() {
    let mut device = Nextion::new(faulty(&[0x71, 1, 0, 0, 0, 0xFF, 0xFF, 0xFF], 0));
    let handle = NextionObject::bind(0, 1, "n0");
    let mut out: [u8; 0] = [];
    assert_eq!(
        channel::get(&mut device, &handle, &VAL, &mut out),
        Err(ComError::TransportWriteFailed)
    );
    assert_eq!(device.get_peripheral().done, vec![Done::Write(b"get n0.val\xFF\xFF\xFF".to_vec())]);
}

#[test]
fn a_fault_of_a_read_ends_a_get() {
    let mut device = Nextion::new(faulty(&[0x71, 1, 0, 0, 0, 0xFF, 0xFF, 0xFF], 5));
    let handle = NextionObject::bind(0, 1, "n0");
    let mut out: [u8; 0] = [];
    assert_eq!(
        channel::get(&mut device, &handle, &VAL, &mut out),
        Err(ComError::TransportReadFailed)
    );
    assert_eq!(device.get_peripheral().done.len(), 6);
}

#[test]
fn a_wrong_tag_ends_a_get_after_one_read() {
    let mut device = Nextion::new(wire(&[0x1A, 0xFF, 0xFF, 0xFF]));
    let handle = NextionObject::bind(0, 1, "n0");
    let mut out: [u8; 0] = [];
    assert_eq!(
        channel::get(&mut device, &handle, &VAL, &mut out),
        Err(ComError::MalformedFrame)
    );
    assert_eq!(
        device.get_peripheral().done,
        vec![Done::Write(b"get n0.val\xFF\xFF\xFF".to_vec()), Done::Flush, Done::Read]
    );
}

#[test]
fn send_cmd_writes_the_command_then_the_terminator_then_flushes() {
    let mut device = Nextion::new(wire(&[]));
    assert_eq!(device.send_cmd(b"page 1"), Ok(()));
    assert_eq!(
        device.get_peripheral().done,
        vec![Done::Write(b"page 1".to_vec()), Done::Write(vec![0xFF, 0xFF, 0xFF]), Done::Flush]
    );
}

#[test]
fn send_cmd_takes_a_command_of_any_length() {
    for length in [0usize, 1, 265, 266, 1000, 70000] {
        let command = vec![b'x'; length];
        let mut device = Nextion::new(wire(&[]));
        assert_eq!(device.send_cmd(&command), Ok(()));
        let done = device.get_peripheral().done.clone();
        assert_eq!(
            done,
            vec![Done::Write(command.clone()), Done::Write(vec![0xFF, 0xFF, 0xFF]), Done::Flush]
        );
        let mut handed = Vec::new();
        for op in &done {
            if let Done::Write(bytes) = op {
                handed.extend_from_slice(bytes);
            }
        }
        let mut expected = command;
        expected.extend_from_slice(&[0xFF, 0xFF, 0xFF]);
        assert_eq!(handed, expected);
    }
}

#[test]
fn the_first_fault_ends_send_cmd() {
    let mut device = Nextion::new(faulty(&[], 0));
    assert_eq!(device.send_cmd(b"page 1"), Err(ComError::TransportWriteFailed));
    assert_eq!(device.get_peripheral().done, vec![Done::Write(b"page 1".to_vec())]);
    let mut device = Nextion::new(faulty(&[], 1));
    assert_eq!(device.send_cmd(b"page 1"), Err(ComError::TransportWriteFailed));
    assert_eq!(
        device.get_peripheral().done,
        vec![Done::Write(b"page 1".to_vec()), Done::Write(vec![0xFF, 0xFF, 0xFF])]
    );
    let mut device = Nextion::new(faulty(&[], 2));
    assert_eq!(device.send_cmd(b"page 1"), Err(ComError::TransportWriteFailed));
    assert_eq!(
        device.get_peripheral().done,
        vec![Done::Write(b"page 1".to_vec()), Done::Write(vec![0xFF, 0xFF, 0xFF]), Done::Flush]
    );
}

#[test]
fn a_frame_is_sent_in_one_write() {
    let mut device = Nextion::new(wire(&[]));
    let frame = frame_command(b"raw").unwrap();
    assert_eq!(device.send(&frame), Ok(()));
    assert_eq!(
        device.get_peripheral().done,
        vec![Done::Write(b"raw\xFF\xFF\xFF".to_vec()), Done::Flush]
    );
    let mut out = [0u8; 4];
    let mut device = Nextion::new(wire(b"\x70ok\xFF\xFF\xFF"));
    assert_eq!(device.ask(&frame, Expect::Text, &mut out), Ok(Reply::Text(2)));
    assert_eq!(&out[..2], b"ok");
    assert_eq!(device.get_peripheral().done.len(), 2 + 6);
    assert_eq!(device.ask(&frame, Expect::Nothing, &mut out), Ok(Reply::Sent));
    assert_eq!(device.get_peripheral().done.len(), 2 + 6 + 2);
}

#[test]
fn get_str_reads_a_string_frame() {
    let mut device = Nextion::new(wire(&[0x70, 0x41, 0x42, 0xFF, 0xFF, 0xFF]));
    let mut out = [0u8; 8];
    assert_eq!(device.get_str(&mut out), Ok(2));
    assert_eq!(&out[..2], b"AB");
    assert_eq!(device.get_peripheral().done, vec![Done::Read; 6]);
    let mut device = Nextion::new(wire(&[0x71, 0x41, 0x42, 0xFF, 0xFF, 0xFF]));
    assert_eq!(device.get_str(&mut out), Err(ComError::MalformedFrame));
    assert_eq!(device.get_peripheral().done, vec![Done::Read; 1]);
}

#[test]
fn get_str_stops_reading_once_the_buffer_is_full() {
    let mut device = Nextion::new(wire(b"\x70Hello\xFF\xFF\xFF"));
    let mut out = [0u8; 3];
    assert_eq!(device.get_str(&mut out), Ok(3));
    assert_eq!(&out, b"Hel");
    assert_eq!(device.get_peripheral().done, vec![Done::Read; 4]);
}

#[test]
fn get_number_reads_a_numeric_frame() {
    let mut device = Nextion::new(wire(&[0x71, 1, 0, 0, 0, 0xFF, 0x10, 0xFF]));
    assert_eq!(device.get_number(IntWidth::U8), Err(ComError::MalformedFrame));
    assert_eq!(device.get_peripheral().done, vec![Done::Read; 8]);
    let mut device = Nextion::new(wire(&[0x71, 1, 0, 0, 0, 0xFF, 0xFF, 0xFF]));
    assert_eq!(device.get_number(IntWidth::U8), Ok(1));
    let mut device = Nextion::new(wire(&[0x71, 0, 1, 0, 0, 0xFF, 0xFF, 0xFF]));
    assert_eq!(device.get_number(IntWidth::U8), Err(ComError::UnrepresentableValue));
    let mut device = Nextion::new(wire(&[0x71, 0, 1, 0]));
    assert_eq!(device.get_number(IntWidth::U8), Err(ComError::TransportReadFailed));
    assert_eq!(device.get_peripheral().done, vec![Done::Read; 5]);
}

#[test]
fn the_transport_comes_back_as_it_was_handed_over() {
    let mut device = Nextion::new(wire(&[1, 2, 3]));
    assert_eq!(device.get_peripheral().incoming, vec![1, 2, 3]);
    device.get_peripheral().incoming.push(4);
    assert_eq!(device.get_peripheral().incoming, vec![1, 2, 3, 4]);
    assert!(device.get_peripheral().done.is_empty());
}
