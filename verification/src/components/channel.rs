//! The attribute channel: one way to write and read any attribute of any
//! component, steered by the description of the attribute.

use super::attribute::{AttributeSpec, EnumKind, Value, WireKind, wire_text};
use super::BaseInfo;
use crate::nextion::buffer::{terminator, Frame, MAX_COMMAND_LEN};
use crate::nextion::codec::{
    add_text, assignment_text, cle_text, encode_add_data, encode_clear_channel, encode_get,
    encode_set, framed, frames_as, query_text, WireValue, MAX_CHANNEL,
};
use crate::nextion::command::IntoU8;
use crate::nextion::device::Nextion;
use crate::nextion::error::ComError;
use crate::nextion::exchange::{Exchange, Expect, Phase, Reply};
use crate::nextion::number::{
    decimal_digits, decimal_len, decimal_text, lemma_decimal_text_within, IntWidth,
};
use crate::nextion::record::{performed, sent};
use crate::nextion::transport::Transport;
use vstd::prelude::*;
use vstd::string::{is_ascii, is_ascii_spec_bytes, StringSliceAdditionalSpecFns};

verus! {

/// A query ready to be made: the frame to write and the answer to await.
pub struct Query {
    /// The frame that asks for the attribute.
    pub frame: Frame,
    /// The answer that the query awaits.
    pub expect: Expect,
}

/// The number of `value` on the wire, for a value that has one.
fn wire_number(value: Value<&str>) -> (number: i64)
    requires
        value.number() is Some,
    ensures
        number == value.number()->0,
{
    match value {
        Value::Integer(value) => value,
        Value::Text(_) => 0,
        Value::Flag(on) => if on {
            1
        } else {
            0
        },
        Value::ScrollDirection(direction) => direction.into_u8() as i64,
        Value::TextType(text_type) => text_type.into_u8() as i64,
        Value::NumberFormat(format) => format.into_u8() as i64,
        Value::HorizontalAlignment(alignment) => alignment.into_u8() as i64,
        Value::VerticalAlignment(alignment) => alignment.into_u8() as i64,
    }
}

/// Tells whether the attribute accepts `value`.
pub fn validate(spec: &AttributeSpec, value: Value<&str>) -> (accepted: bool)
    ensures
        accepted == spec.admits(value),
{
    let suited = match (spec.wire_kind, value) {
        (WireKind::Integer(width), Value::Integer(number)) => width.fits(number),
        (WireKind::Text, Value::Text(_)) => true,
        (WireKind::Enum(EnumKind::Flag), Value::Flag(_)) => true,
        (WireKind::Enum(EnumKind::ScrollDirection), Value::ScrollDirection(_)) => true,
        (WireKind::Enum(EnumKind::TextType), Value::TextType(_)) => true,
        (WireKind::Enum(EnumKind::NumberFormat), Value::NumberFormat(_)) => true,
        (WireKind::Enum(EnumKind::HorizontalAlignment), Value::HorizontalAlignment(_)) => true,
        (WireKind::Enum(EnumKind::VerticalAlignment), Value::VerticalAlignment(_)) => true,
        _ => false,
    };
    if !suited {
        return false;
    }
    match (spec.valid_range, value) {
        (_, Value::Text(_)) => true,
        (None, _) => true,
        (Some(range), _) => {
            let number = wire_number(value);
            range.min <= number && number <= range.max
        },
    }
}

/// Prepares the assignment of `value` to the attribute `spec` of the
/// component behind `handle`. The value is validated first: one that the
/// attribute does not accept is refused with `ValueOutOfRange`, and nothing
/// is encoded. An accepted value gives the frame `<name>.<key>=<value>`, or
/// `CommandTooLong` if that passes the attribute's capacity for assignments.
pub fn assignment<B: BaseInfo>(handle: &B, spec: &AttributeSpec, value: Value<&str>) -> (frame:
    Result<Frame, ComError>)
    ensures
        !spec.admits(value) ==> frame is Err && frame->Err_0 == ComError::ValueOutOfRange,
        spec.admits(value) ==> frames_as(
            frame,
            framed(
                assignment_text(
                    handle.component_name().spec_bytes(),
                    spec.key.spec_bytes(),
                    wire_text(value),
                ),
                spec.set_capacity,
            ),
        ),
{
    if !validate(spec, value) {
        return Err(ComError::ValueOutOfRange);
    }
    let wire = match value {
        Value::Text(text) => WireValue::Text(text),
        _ => WireValue::Integer(wire_number(value)),
    };
    encode_set(handle.get_component_name(), spec.key, wire, spec.set_capacity)
}

/// Prepares the query of the attribute `spec` of the component behind
/// `handle`: the frame `get <name>.<key>` and the answer to await, which is
/// that of the attribute's wire kind. Fails with `CommandTooLong` if the
/// query passes the attribute's capacity for queries.
pub fn query<B: BaseInfo>(handle: &B, spec: &AttributeSpec) -> (query: Result<Query, ComError>)
    ensures
        match framed(
            query_text(handle.component_name().spec_bytes(), spec.key.spec_bytes()),
            spec.get_capacity,
        ) {
            Ok(bytes) => query is Ok && query->Ok_0.frame@ == bytes && query->Ok_0.expect
                == spec.expects(),
            Err(e) => query is Err && query->Err_0 == e,
        },
{
    let expect = match spec.wire_kind {
        WireKind::Integer(width) => Expect::Number(width),
        WireKind::Text => Expect::Text,
        WireKind::Enum(_) => Expect::Number(IntWidth::U8),
    };
    match encode_get(handle.get_component_name(), spec.key, spec.get_capacity) {
        Ok(frame) => Ok(Query { frame, expect }),
        Err(e) => Err(e),
    }
}

/// Converts the reply of a finished query to the value of the attribute.
pub fn interpret(spec: &AttributeSpec, reply: Reply) -> (value: Result<Value<usize>, ComError>)
    ensures
        value == spec.reading(reply),
{
    match (spec.wire_kind, reply) {
        (WireKind::Integer(_), Reply::Number(value)) => Ok(Value::Integer(value)),
        (WireKind::Text, Reply::Text(length)) => Ok(Value::Text(length)),
        (WireKind::Enum(kind), Reply::Number(code)) => kind.to_variant(code),
        _ => Err(ComError::MalformedFrame),
    }
}

/// What a finished query means for the attribute `spec`: the value of its
/// reply, or its error.
pub open spec fn read_as(spec: AttributeSpec, raw: Result<Reply, ComError>) -> Result<
    Value<usize>,
    ComError,
> {
    match raw {
        Ok(reply) => spec.reading(reply),
        Err(e) => Err(e),
    }
}

/// Assigns `value` to the attribute `spec` of the component behind `handle`.
/// The value is validated before anything is done with the transport: one
/// that the attribute does not accept fails with `ValueOutOfRange`, and a
/// command that passes the attribute's capacity for assignments fails with
/// `CommandTooLong`; in both cases no operation is made. Otherwise the frame
/// `<name>.<key>=<value>` is written once and flushed.
pub fn set<USART: Transport, B: BaseInfo>(
    device: &mut Nextion<USART>,
    handle: &B,
    spec: &AttributeSpec,
    value: Value<&str>,
) -> (done: Result<(), ComError>)
    ensures
        !spec.admits(value) ==> done == Err::<(), ComError>(ComError::ValueOutOfRange)
            && final(device).log() == old(device).log(),
        spec.admits(value) ==> match framed(
            assignment_text(
                handle.component_name().spec_bytes(),
                spec.key.spec_bytes(),
                wire_text(value),
            ),
            spec.set_capacity,
        ) {
            Ok(frame) => sent(old(device).log(), final(device).log(), frame, done),
            Err(e) => done == Err::<(), ComError>(e) && final(device).log() == old(device).log(),
        },
{
    let frame = assignment(handle, spec, value)?;
    device.send(&frame)
}

/// Queries the attribute `spec` of the component behind `handle`. A query
/// that passes the attribute's capacity for queries fails with
/// `CommandTooLong`, and no operation is made. Otherwise the frame
/// `get <name>.<key>` is written and flushed, the answer of the attribute's
/// wire kind is read, and its reply is converted to the value of the
/// attribute. The content of a text lands at the front of `out`.
pub fn get<USART: Transport, B: BaseInfo>(
    device: &mut Nextion<USART>,
    handle: &B,
    spec: &AttributeSpec,
    out: &mut [u8],
) -> (value: Result<Value<usize>, ComError>)
    ensures
        final(out)@.len() == old(out)@.len(),
        match framed(
            query_text(handle.component_name().spec_bytes(), spec.key.spec_bytes()),
            spec.get_capacity,
        ) {
            Ok(frame) => exists|raw: Result<Reply, ComError>|
                {
                    &&& #[trigger] performed(
                        old(device).log(),
                        final(device).log(),
                        Exchange { expect: spec.expects(), phase: Phase::Write },
                        frame,
                        old(out)@,
                        final(out)@,
                        raw,
                    )
                    &&& value == read_as(*spec, raw)
                },
            Err(e) => value == Err::<Value<usize>, ComError>(e) && final(device).log() == old(
                device,
            ).log() && final(out)@ == old(out)@,
        },
{
    let prepared = query(handle, spec)?;
    match device.ask(&prepared.frame, prepared.expect, out) {
        Ok(reply) => interpret(spec, reply),
        Err(e) => Err(e),
    }
}

/// Appends `value` to channel `channel` of the chart with the id
/// `component_id`. A channel above `MAX_CHANNEL` fails with
/// `ValueOutOfRange`, and no operation is made. Otherwise the frame
/// `add <component_id>,<channel>,<value>` is written once and flushed.
pub fn add_data<USART: Transport>(
    device: &mut Nextion<USART>,
    component_id: u8,
    channel: u8,
    value: u8,
) -> (done: Result<(), ComError>)
    ensures
        channel > MAX_CHANNEL ==> done == Err::<(), ComError>(ComError::ValueOutOfRange)
            && final(device).log() == old(device).log(),
        channel <= MAX_CHANNEL ==> sent(
            old(device).log(),
            final(device).log(),
            add_text(component_id, channel, value) + terminator(),
            done,
        ),
{
    let frame = encode_add_data(component_id, channel, value)?;
    device.send(&frame)
}

/// Clears channel `channel` of the chart with the id `component_id`. A
/// channel above `MAX_CHANNEL` fails with `ValueOutOfRange`, and no operation
/// is made. Otherwise the frame `cle <component_id>,<channel>` is written
/// once and flushed.
pub fn clear_channel<USART: Transport>(
    device: &mut Nextion<USART>,
    component_id: u8,
    channel: u8,
) -> (done: Result<(), ComError>)
    ensures
        channel > MAX_CHANNEL ==> done == Err::<(), ComError>(ComError::ValueOutOfRange)
            && final(device).log() == old(device).log(),
        channel <= MAX_CHANNEL ==> sent(
            old(device).log(),
            final(device).log(),
            cle_text(component_id, channel) + terminator(),
            done,
        ),
{
    let frame = encode_clear_channel(component_id, channel)?;
    device.send(&frame)
}

/// The ASCII text `pco`.
pub open spec fn pco_prefix() -> Seq<u8> {
    seq![0x70u8, 0x63u8, 0x6Fu8]
}

/// Gives the key of the colour of channel `channel` of a chart, which is
/// `pco` followed by the channel. A channel above `MAX_CHANNEL` is refused
/// with `ValueOutOfRange`.
pub fn wave_form_pco_key(channel: u8) -> (key: Result<&'static str, ComError>)
    ensures
        channel > MAX_CHANNEL ==> key == Err::<&'static str, ComError>(ComError::ValueOutOfRange),
        channel <= MAX_CHANNEL ==> key is Ok && key->Ok_0.spec_bytes() == pco_prefix()
            + decimal_text(channel as int),
{
    proof {
        reveal_strlit("pco0");
        reveal_strlit("pco1");
        reveal_strlit("pco2");
        reveal_strlit("pco3");
        reveal_strlit("pco4");
        is_ascii_spec_bytes("pco0");
        is_ascii_spec_bytes("pco1");
        is_ascii_spec_bytes("pco2");
        is_ascii_spec_bytes("pco3");
        is_ascii_spec_bytes("pco4");
        assert(is_ascii("pco0") && is_ascii("pco1") && is_ascii("pco2") && is_ascii("pco3")
            && is_ascii("pco4"));
    }
    let key = match channel {
        0 => "pco0",
        1 => "pco1",
        2 => "pco2",
        3 => "pco3",
        4 => "pco4",
        _ => {
            return Err(ComError::ValueOutOfRange);
        },
    };
    assert(key.spec_bytes() =~= pco_prefix() + decimal_digits(channel as nat));
    Ok(key)
}

/// The least and the greatest number that `spec` accepts.
fn bounds_of(spec: &AttributeSpec) -> (bounds: (i64, i64))
    ensures
        bounds.0 == spec.number_bounds().0,
        bounds.1 == spec.number_bounds().1,
{
    let (low, high): (i64, i64) = match spec.wire_kind {
        WireKind::Integer(IntWidth::U8) => (0, 0xFF),
        WireKind::Integer(IntWidth::U16) => (0, 0xFFFF),
        WireKind::Integer(IntWidth::U32) => (0, 0xFFFF_FFFF),
        WireKind::Integer(IntWidth::I32) => (-0x8000_0000, 0x7FFF_FFFF),
        WireKind::Enum(EnumKind::ScrollDirection) => (0, 3),
        WireKind::Enum(EnumKind::Flag) | WireKind::Enum(EnumKind::TextType) => (0, 1),
        WireKind::Enum(_) => (0, 2),
        WireKind::Text => (0, -1),
    };
    match spec.valid_range {
        Some(range) => (
            if range.min > low {
                range.min
            } else {
                low
            },
            if range.max < high {
                range.max
            } else {
                high
            },
        ),
        None => (low, high),
    }
}

/// Tells whether the name of the component behind `handle` is short enough
/// for the attribute `spec`, that is, whether no query of the attribute and
/// no assignment of a number it accepts can fail with `CommandTooLong`. An
/// assignment of a text is judged when it is made.
pub fn accommodates<B: BaseInfo>(handle: &B, spec: &AttributeSpec) -> (yes: bool)
    ensures
        yes == spec.has_room_for(handle.component_name().spec_bytes().len()),
{
    let name_len: usize = handle.get_component_name().as_bytes().len();
    let key_len: usize = spec.key.as_bytes().len();
    if name_len > MAX_COMMAND_LEN || key_len > MAX_COMMAND_LEN {
        return false;
    }
    let get_room: usize = if spec.get_capacity <= MAX_COMMAND_LEN {
        spec.get_capacity
    } else {
        MAX_COMMAND_LEN
    };
    let set_room: usize = if spec.set_capacity <= MAX_COMMAND_LEN {
        spec.set_capacity
    } else {
        MAX_COMMAND_LEN
    };
    if 4 + name_len + 1 + key_len > get_room {
        return false;
    }
    match spec.wire_kind {
        WireKind::Text => true,
        _ => {
            let (low, high) = bounds_of(spec);
            let longest: usize = if low > high {
                0
            } else {
                let of_low = decimal_len(low);
                let of_high = decimal_len(high);
                if of_low >= of_high {
                    of_low
                } else {
                    of_high
                }
            };
            name_len + 1 + key_len + 1 + longest <= set_room
        },
    }
}

/// A name that is short enough for an attribute never makes a command too
/// long: the query gets its frame, and so does the assignment of every
/// number the attribute accepts.
pub proof fn lemma_short_names_never_overflow(spec: AttributeSpec, name: &str, value: Value<&str>)
    requires
        spec.has_room_for(name.spec_bytes().len()),
    ensures
        framed(query_text(name.spec_bytes(), spec.key.spec_bytes()), spec.get_capacity) is Ok,
        spec.admits(value) && !(value is Text) ==> framed(
            assignment_text(name.spec_bytes(), spec.key.spec_bytes(), wire_text(value)),
            spec.set_capacity,
        ) is Ok,
{
    if spec.admits(value) && !(value is Text) {
        let number = value.number()->0;
        let (low, high) = spec.number_bounds();
        assert(low <= number <= high);
        lemma_decimal_text_within(low, number, high);
    }
}

} // verus!
