//! Frame codec: command frames out, response frames in.

use super::buffer::{effective_capacity, terminator, CommandBuffer, Frame, MAX_COMMAND_LEN};
use super::error::ComError;
use super::exchange::{
    fitting, pending, Event, Exchange, Expect, Phase, Reply, END, NUMBER_HEAD, STRING_HEAD,
};
use super::number::{
    decimal_digits, decimal_text, payload_byte, payload_value, push_decimal, IntWidth,
};
use vstd::prelude::*;
use vstd::string::StringSliceAdditionalSpecFns;

verus! {

/// A value as it is written into an assignment.
#[derive(Clone, Copy, Debug, PartialEq, Eq)]
pub enum WireValue<'a> {
    /// An integer, written in decimal.
    Integer(i64),
    /// A text, written as it is.
    Text(&'a str),
}

impl<'a> WireValue<'a> {
    /// The bytes that stand for the value in a command.
    pub open spec fn text(self) -> Seq<u8> {
        match self {
            WireValue::Integer(value) => decimal_text(value as int),
            WireValue::Text(text) => text.spec_bytes(),
        }
    }
}

/// The ASCII text `get `.
pub open spec fn get_prefix() -> Seq<u8> {
    seq![0x67u8, 0x65u8, 0x74u8, 0x20u8]
}

/// The ASCII text `add `.
pub open spec fn add_prefix() -> Seq<u8> {
    seq![0x61u8, 0x64u8, 0x64u8, 0x20u8]
}

/// The ASCII text `cle `.
pub open spec fn cle_prefix() -> Seq<u8> {
    seq![0x63u8, 0x6Cu8, 0x65u8, 0x20u8]
}

/// The ASCII full stop between a component's name and an attribute's key.
pub const DOT: u8 = 0x2E;

/// The ASCII equals sign between a key and its new value.
pub const EQUALS: u8 = 0x3D;

/// The ASCII comma between the arguments of a chart command.
pub const COMMA: u8 = 0x2C;

/// The greatest channel of a chart.
pub const MAX_CHANNEL: u8 = 4;

/// The capacity of the buffer that an `add` command is built in. The longest
/// such command takes 13 bytes.
pub const ADD_CAPACITY: usize = 15;

/// The capacity of the buffer that a `cle` command is built in. The longest
/// such command takes 9 bytes.
pub const CLE_CAPACITY: usize = 11;

/// The text `<name>.<key>=<value>`.
pub open spec fn assignment_text(name: Seq<u8>, key: Seq<u8>, value: Seq<u8>) -> Seq<u8> {
    name + seq![DOT] + key + seq![EQUALS] + value
}

/// The text `get <name>.<key>`.
pub open spec fn query_text(name: Seq<u8>, key: Seq<u8>) -> Seq<u8> {
    get_prefix() + name + seq![DOT] + key
}

/// The text `add <component_id>,<channel>,<value>`.
pub open spec fn add_text(component_id: u8, channel: u8, value: u8) -> Seq<u8> {
    add_prefix() + decimal_text(component_id as int) + seq![COMMA] + decimal_text(channel as int)
        + seq![COMMA] + decimal_text(value as int)
}

/// The text `cle <component_id>,<channel>`.
pub open spec fn cle_text(component_id: u8, channel: u8) -> Seq<u8> {
    cle_prefix() + decimal_text(component_id as int) + seq![COMMA] + decimal_text(channel as int)
}

/// What framing `text` under `capacity` gives: the text and the terminator,
/// unless the text is longer than the capacity allows.
pub open spec fn framed(text: Seq<u8>, capacity: usize) -> Result<Seq<u8>, ComError> {
    if text.len() <= effective_capacity(capacity) {
        Ok(text + terminator())
    } else {
        Err(ComError::CommandTooLong)
    }
}

/// Whether `result` is the frame, or the error, that `wanted` names.
pub open spec fn frames_as(
    result: Result<Frame, ComError>,
    wanted: Result<Seq<u8>, ComError>,
) -> bool {
    match wanted {
        Ok(bytes) => result is Ok && result->Ok_0@ == bytes,
        Err(e) => result is Err && result->Err_0 == e,
    }
}

/// Encodes the assignment `<name>.<key>=<value>` as a frame. Fails with
/// `CommandTooLong` if the text is longer than `capacity` bytes, or than
/// `MAX_COMMAND_LEN`.
pub fn encode_set(name: &str, key: &str, value: WireValue, capacity: usize) -> (frame: Result<
    Frame,
    ComError,
>)
    ensures
        frames_as(
            frame,
            framed(assignment_text(name.spec_bytes(), key.spec_bytes(), value.text()), capacity),
        ),
{
    let mut cmd = CommandBuffer::new(capacity);
    cmd.push_bytes(name.as_bytes())?;
    cmd.push_byte(DOT)?;
    cmd.push_bytes(key.as_bytes())?;
    cmd.push_byte(EQUALS)?;
    assert(cmd.text() =~= name.spec_bytes() + seq![DOT] + key.spec_bytes() + seq![EQUALS]);
    let pushed = match value {
        WireValue::Integer(number) => push_decimal(&mut cmd, number),
        WireValue::Text(text) => cmd.push_bytes(text.as_bytes()),
    };
    pushed?;
    Ok(cmd.finish())
}

/// Encodes the query `get <name>.<key>` as a frame. Fails with
/// `CommandTooLong` if the text is longer than `capacity` bytes, or than
/// `MAX_COMMAND_LEN`.
pub fn encode_get(name: &str, key: &str, capacity: usize) -> (frame: Result<Frame, ComError>)
    ensures
        frames_as(frame, framed(query_text(name.spec_bytes(), key.spec_bytes()), capacity)),
{
    let mut cmd = CommandBuffer::new(capacity);
    let prefix: [u8; 4] = [0x67, 0x65, 0x74, 0x20];
    assert(prefix@ =~= get_prefix());
    cmd.push_bytes(prefix.as_slice())?;
    cmd.push_bytes(name.as_bytes())?;
    cmd.push_byte(DOT)?;
    cmd.push_bytes(key.as_bytes())?;
    assert(cmd.text() =~= query_text(name.spec_bytes(), key.spec_bytes()));
    Ok(cmd.finish())
}

/// Frames a command that the caller wrote out itself, so that it can be sent
/// as one frame or be the frame of a query. Fails with `CommandTooLong` if it
/// is longer than `MAX_COMMAND_LEN`, the most a frame holds.
pub fn frame_command(command: &[u8]) -> (frame: Result<Frame, ComError>)
    ensures
        frames_as(frame, framed(command@, MAX_COMMAND_LEN)),
{
    let mut cmd = CommandBuffer::new(MAX_COMMAND_LEN);
    cmd.push_bytes(command)?;
    assert(cmd.text() =~= command@);
    Ok(cmd.finish())
}

/// A number below 256 has at most three decimal digits.
proof fn lemma_byte_digits(n: u8)
    ensures
        1 <= decimal_digits(n as nat).len() <= 3,
        decimal_text(n as int) == decimal_digits(n as nat),
{
    reveal_with_fuel(decimal_digits, 3);
}

/// Encodes `add <component_id>,<channel>,<value>`, which appends one value to
/// a channel of a chart. A channel above `MAX_CHANNEL` is refused with
/// `ValueOutOfRange`; every other input gives a frame.
pub fn encode_add_data(component_id: u8, channel: u8, value: u8) -> (frame: Result<
    Frame,
    ComError,
>)
    ensures
        channel > MAX_CHANNEL ==> frame is Err && frame->Err_0 == ComError::ValueOutOfRange,
        channel <= MAX_CHANNEL ==> frame is Ok && frame->Ok_0@ == add_text(
            component_id,
            channel,
            value,
        ) + terminator(),
{
    if channel > MAX_CHANNEL {
        return Err(ComError::ValueOutOfRange);
    }
    proof {
        lemma_byte_digits(component_id);
        lemma_byte_digits(channel);
        lemma_byte_digits(value);
    }
    let mut cmd = CommandBuffer::new(ADD_CAPACITY);
    let prefix: [u8; 4] = [0x61, 0x64, 0x64, 0x20];
    assert(prefix@ =~= add_prefix());
    cmd.push_bytes(prefix.as_slice())?;
    push_decimal(&mut cmd, component_id as i64)?;
    cmd.push_byte(COMMA)?;
    push_decimal(&mut cmd, channel as i64)?;
    cmd.push_byte(COMMA)?;
    push_decimal(&mut cmd, value as i64)?;
    assert(cmd.text() =~= add_text(component_id, channel, value));
    Ok(cmd.finish())
}

/// Encodes `cle <component_id>,<channel>`, which clears a channel of a chart.
/// A channel above `MAX_CHANNEL` is refused with `ValueOutOfRange`; every
/// other input gives a frame.
pub fn encode_clear_channel(component_id: u8, channel: u8) -> (frame: Result<Frame, ComError>)
    ensures
        channel > MAX_CHANNEL ==> frame is Err && frame->Err_0 == ComError::ValueOutOfRange,
        channel <= MAX_CHANNEL ==> frame is Ok && frame->Ok_0@ == cle_text(component_id, channel)
            + terminator(),
{
    if channel > MAX_CHANNEL {
        return Err(ComError::ValueOutOfRange);
    }
    proof {
        lemma_byte_digits(component_id);
        lemma_byte_digits(channel);
    }
    let mut cmd = CommandBuffer::new(CLE_CAPACITY);
    let prefix: [u8; 4] = [0x63, 0x6C, 0x65, 0x20];
    assert(prefix@ =~= cle_prefix());
    cmd.push_bytes(prefix.as_slice())?;
    push_decimal(&mut cmd, component_id as i64)?;
    cmd.push_byte(COMMA)?;
    push_decimal(&mut cmd, channel as i64)?;
    assert(cmd.text() =~= cle_text(component_id, channel));
    Ok(cmd.finish())
}

/// Whether no byte of `bytes` is the terminator byte.
pub open spec fn free_of_end(bytes: Seq<u8>) -> bool {
    forall|i: int| 0 <= i < bytes.len() ==> bytes[i] != END
}

/// No byte of the UTF-8 form of a scalar value is `0xFF`.
proof fn lemma_scalar_free_of_end(scalar: u32)
    ensures
        free_of_end(vstd::utf8::encode_scalar(scalar)),
{
    assert((scalar & 0x7F) as u8 != 0xFF) by (bit_vector);
    assert(0xC0 | ((scalar >> 6) & 0x1F) as u8 != 0xFF) by (bit_vector);
    assert(0xE0 | ((scalar >> 12) & 0x0F) as u8 != 0xFF) by (bit_vector);
    assert(0xF0 | ((scalar >> 18) & 0x7) as u8 != 0xFF) by (bit_vector);
    assert(0x80 | (scalar & 0x3F) as u8 != 0xFF) by (bit_vector);
    assert(0x80 | ((scalar >> 6) & 0x3F) as u8 != 0xFF) by (bit_vector);
    assert(0x80 | ((scalar >> 12) & 0x3F) as u8 != 0xFF) by (bit_vector);
}

/// No byte of the UTF-8 form of a text is `0xFF`.
proof fn lemma_utf8_free_of_end(chars: Seq<char>)
    ensures
        free_of_end(vstd::utf8::encode_utf8(chars)),
    decreases chars.len(),
{
    if chars.len() > 0 {
        lemma_scalar_free_of_end(chars[0] as u32);
        lemma_utf8_free_of_end(chars.drop_first());
    }
}

/// No byte of a decimal text is `0xFF`.
proof fn lemma_digits_free_of_end(n: nat)
    ensures
        free_of_end(decimal_digits(n)),
    decreases n,
{
    if n >= 10 {
        lemma_digits_free_of_end(n / 10);
    }
}

/// The terminator of an assignment frame is its only one. Whatever the name,
/// the key and the value are, the frame is the text `<name>.<key>=<value>`
/// followed by three `0xFF` bytes, and no byte of the text is `0xFF`: the
/// frame ends in exactly three of them, and the first run of three is the
/// end.
pub proof fn lemma_assignment_ends_in_one_terminator(
    name: &str,
    key: &str,
    value: WireValue,
    capacity: usize,
)
    ensures
        free_of_end(assignment_text(name.spec_bytes(), key.spec_bytes(), value.text())),
        framed(assignment_text(name.spec_bytes(), key.spec_bytes(), value.text()), capacity)
            matches Ok(frame) ==> {
            let text = assignment_text(name.spec_bytes(), key.spec_bytes(), value.text());
            &&& frame.len() == text.len() + 3
            &&& frame.subrange(0, text.len() as int) == text
            &&& forall|i: int| 0 <= i < frame.len() ==> (frame[i] == END <==> text.len() <= i)
        },
{
    let text = assignment_text(name.spec_bytes(), key.spec_bytes(), value.text());
    lemma_utf8_free_of_end(name@);
    lemma_utf8_free_of_end(key@);
    match value {
        WireValue::Integer(number) => {
            if number < 0 {
                lemma_digits_free_of_end((-number) as nat);
            } else {
                lemma_digits_free_of_end(number as nat);
            }
        },
        WireValue::Text(content) => {
            lemma_utf8_free_of_end(content@);
        },
    }
    assert(free_of_end(text));
    if text.len() <= effective_capacity(capacity) {
        let frame = text + terminator();
        assert(frame.subrange(0, text.len() as int) =~= text);
    }
}

/// The outcome of reading a numeric frame from `bytes`, where a read past the
/// last byte is a transport fault. The first byte has to be the numeric tag;
/// then seven bytes are read, four of payload with the least significant
/// first and three that have to be `0xFF`; then the 32-bit number of the
/// payload, read with the sign of `width`, is narrowed to `width`. Bytes
/// after the eighth are not looked at.
pub open spec fn number_outcome(bytes: Seq<u8>, width: IntWidth) -> Result<i64, ComError> {
    if bytes.len() == 0 {
        Err(ComError::TransportReadFailed)
    } else if bytes[0] != NUMBER_HEAD {
        Err(ComError::MalformedFrame)
    } else if bytes.len() < 8 {
        Err(ComError::TransportReadFailed)
    } else if bytes[5] != END || bytes[6] != END || bytes[7] != END {
        Err(ComError::MalformedFrame)
    } else {
        let value = payload_value(bytes[1], bytes[2], bytes[3], bytes[4], width.signed());
        if width.holds(value) {
            Ok(value as i64)
        } else {
            Err(ComError::UnrepresentableValue)
        }
    }
}

/// The phase of an exchange that awaits a number at `width` and has read
/// the first `read` of `bytes`.
pub open spec fn number_phase(bytes: Seq<u8>, read: int, width: IntWidth) -> Phase {
    if read == 0 {
        Phase::Tag
    } else if bytes[0] != NUMBER_HEAD {
        Phase::Finished(Err(ComError::MalformedFrame))
    } else if read < 8 {
        Phase::Number {
            count: (read - 1) as u8,
            b0: if read > 1 {
                bytes[1]
            } else {
                0
            },
            b1: if read > 2 {
                bytes[2]
            } else {
                0
            },
            b2: if read > 3 {
                bytes[3]
            } else {
                0
            },
            b3: if read > 4 {
                bytes[4]
            } else {
                0
            },
            closed: (read > 5 ==> bytes[5] == END) && (read > 6 ==> bytes[6] == END),
        }
    } else {
        Phase::Finished(
            match number_outcome(bytes, width) {
                Ok(value) => Ok(Reply::Number(value)),
                Err(e) => Err(e),
            },
        )
    }
}

/// Decodes a numeric frame held in memory: runs a receiving exchange over
/// `bytes`, and reports a transport fault if they end before the frame does.
pub fn decode_number(bytes: &[u8], width: IntWidth) -> (value: Result<i64, ComError>)
    ensures
        value == number_outcome(bytes@, width),
{
    let mut exchange = Exchange::receive(Expect::Number(width));
    let mut unused: [u8; 0] = [];
    let mut read: usize = 0;
    while read < bytes.len() && read < 8
        invariant
            read <= bytes@.len(),
            read <= 8,
            exchange.expect == Expect::Number(width),
            exchange.phase == number_phase(bytes@, read as int, width),
        decreases bytes@.len() - read,
    {
        exchange.advance(Event::Byte(bytes[read]), &mut unused);
        read = read + 1;
    }
    exchange.advance(Event::Fault, &mut unused);
    match exchange.result() {
        Some(Ok(Reply::Number(value))) => Ok(value),
        Some(Err(e)) => Err(e),
        _ => Err(ComError::MalformedFrame),
    }
}

/// The numeric frame that carries `value`: the tag, the four bytes of the
/// value in 32 bits with the least significant first, and the terminator.
/// A negative value goes in two's complement.
pub open spec fn number_frame(value: int) -> Seq<u8> {
    seq![
        NUMBER_HEAD,
        payload_byte(value, 0),
        payload_byte(value, 1),
        payload_byte(value, 2),
        payload_byte(value, 3),
        END,
        END,
        END,
    ]
}

/// Round trip: at every width, every value that the width holds is decoded
/// unchanged from the frame that carries it.
pub proof fn lemma_number_round_trip(value: int, width: IntWidth)
    requires
        width.holds(value),
    ensures
        number_outcome(number_frame(value), width) == Ok::<i64, ComError>(value as i64),
{
    super::number::lemma_payload_round_trip(value, width);
}

/// The outcome of reading the body of a string frame from `body`, where a
/// read past the last byte is a transport fault, `stored` bytes of content
/// already stand in a buffer of `cap` bytes, and the last `run` bytes read
/// were `0xFF`. Reading stops with the third `0xFF` in a row, which ends the
/// frame, or as soon as the buffer is full. The result is the number of
/// content bytes stored.
pub open spec fn scan_text(body: Seq<u8>, stored: nat, run: nat, cap: nat) -> Result<
    nat,
    ComError,
>
    decreases body.len(),
{
    if stored >= cap {
        Ok(stored)
    } else if body.len() == 0 {
        Err(ComError::TransportReadFailed)
    } else if body[0] == END {
        if run >= 2 {
            Ok(stored)
        } else {
            scan_text(body.drop_first(), stored, run + 1, cap)
        }
    } else if stored + run + 1 >= cap {
        Ok(cap)
    } else {
        scan_text(body.drop_first(), stored + run + 1, 0, cap)
    }
}

/// Reading a string stores no more than the buffer holds, and loses nothing
/// of what was stored before.
pub proof fn lemma_scan_within(body: Seq<u8>, stored: nat, run: nat, cap: nat)
    requires
        stored <= cap,
    ensures
        scan_text(body, stored, run, cap) matches Ok(n) ==> stored <= n <= cap,
    decreases body.len(),
{
    if stored < cap && body.len() > 0 {
        if body[0] == END {
            if run < 2 {
                lemma_scan_within(body.drop_first(), stored, run + 1, cap);
            }
        } else if stored + run + 1 < cap {
            lemma_scan_within(body.drop_first(), stored + run + 1, 0, cap);
        }
    }
}

/// The outcome of reading a string frame from `bytes` into a buffer of `cap`
/// bytes: the first byte has to be the string tag, and the rest is read as
/// `scan_text` says.
pub open spec fn text_outcome(bytes: Seq<u8>, cap: nat) -> Result<nat, ComError> {
    if bytes.len() == 0 {
        Err(ComError::TransportReadFailed)
    } else if bytes[0] != STRING_HEAD {
        Err(ComError::MalformedFrame)
    } else {
        scan_text(bytes.skip(1), 0, 0, cap)
    }
}

/// What `result` says, with the length as a mathematical number.
pub open spec fn length_of(result: Result<usize, ComError>) -> Result<nat, ComError> {
    match result {
        Ok(n) => Ok(n as nat),
        Err(e) => Err(e),
    }
}

/// Whether an exchange that awaits a string, has read the first `read` of
/// `got` into a buffer that held `out` at first, and is not over, stands in
/// `phase` with the buffer holding `held`.
pub open spec fn text_progress(
    got: Seq<u8>,
    read: int,
    out: Seq<u8>,
    phase: Phase,
    held: Seq<u8>,
) -> bool {
    let body = got.skip(1);
    if read == 0 {
        phase is Tag && held == out
    } else {
        &&& got[0] == STRING_HEAD
        &&& phase matches Phase::Text { stored, run }
        &&& stored + run == read - 1
        &&& run <= 2
        &&& stored < out.len()
        &&& forall|i: int| stored <= i < read - 1 ==> body[i] == END
        &&& held == body.take(stored as int) + out.skip(stored as int)
        &&& text_outcome(got, out.len()) == scan_text(
            body.skip(read - 1),
            stored as nat,
            run as nat,
            out.len(),
        )
    }
}

/// What `result` says, as a reply.
pub open spec fn text_reply(result: Result<nat, ComError>) -> Result<Reply, ComError> {
    match result {
        Ok(n) => Ok(Reply::Text(n as usize)),
        Err(e) => Err(e),
    }
}

/// One more byte takes an exchange that awaits a string either to its end,
/// with the outcome of reading a string frame from the bytes, or one byte
/// further on.
pub proof fn lemma_text_step(got: Seq<u8>, k: int, out: Seq<u8>, phase: Phase, held: Seq<u8>)
    requires
        text_progress(got, k, out, phase, held),
        0 <= k < got.len(),
        out.len() <= usize::MAX,
    ensures
        held.len() == out.len(),
        ({
            let exchange = Exchange { expect: Expect::Text, phase };
            let next = exchange.next(Event::Byte(got[k]), held.len()).phase;
            let now = exchange.stores(Event::Byte(got[k]), held);
            match next {
                Phase::Finished(result) => {
                    &&& result == text_reply(text_outcome(got, out.len()))
                    &&& result matches Ok(Reply::Text(n)) ==> n <= out.len() && n < got.len()
                        && now == got.subrange(1, 1 + n) + out.skip(n as int)
                },
                _ => text_progress(got, k + 1, out, next, now),
            }
        }),
{
    let body = got.skip(1);
    let byte = got[k];
    if k == 0 {
        assert(body.skip(0) =~= body);
        assert(held =~= body.take(0) + out.skip(0));
        assert(held =~= got.subrange(1, 1) + out.skip(0));
    } else {
        let rest = body.skip(k - 1);
        assert(rest[0] == byte);
        assert(rest.drop_first() =~= body.skip(k));
        match phase {
            Phase::Text { stored, run } => {
                assert(body.take(stored as int) =~= got.subrange(1, 1 + stored));
                if byte != END {
                    let exchange = Exchange { expect: Expect::Text, phase };
                    let now = exchange.stores(Event::Byte(byte), held);
                    let due = pending(run, byte);
                    assert(due =~= body.subrange(stored as int, k));
                    let kept = fitting(stored, due.len(), out.len());
                    assert(now =~= body.take(stored + kept) + out.skip(stored + kept));
                    assert(body.take(stored + kept) =~= got.subrange(1, 1 + stored + kept));
                }
            },
            _ => {},
        }
    }
}

/// Decodes a string frame held in memory: runs a receiving exchange over
/// `bytes`, and reports a transport fault if they end before the frame does.
/// On success the content stands at the front of `out`, in the order in which
/// it came, and the rest of `out` is as it was. Content that does not fit is
/// dropped without error.
pub fn decode_string(bytes: &[u8], out: &mut [u8]) -> (length: Result<usize, ComError>)
    ensures
        length_of(length) == text_outcome(bytes@, old(out)@.len()),
        final(out)@.len() == old(out)@.len(),
        length matches Ok(n) ==> n <= old(out)@.len() && n < bytes@.len() && final(out)@
            == bytes@.subrange(1, 1 + n) + old(out)@.skip(n as int),
{
    let ghost cap = out@.len();
    let mut exchange = Exchange::receive(Expect::Text);
    let mut read: usize = 0;
    assert(out@.len() == out.len());
    while read < bytes.len() && exchange.result().is_none()
        invariant
            read <= bytes@.len(),
            cap == old(out)@.len(),
            cap <= usize::MAX,
            out@.len() == cap,
            exchange.expect == Expect::Text,
            match exchange.phase {
                Phase::Finished(result) => {
                    &&& result == text_reply(text_outcome(bytes@, cap))
                    &&& result matches Ok(Reply::Text(n)) ==> n <= cap && n < bytes@.len() && out@
                        == bytes@.subrange(1, 1 + n) + old(out)@.skip(n as int)
                },
                phase => text_progress(bytes@, read as int, old(out)@, phase, out@),
            },
        decreases bytes@.len() - read,
    {
        proof {
            lemma_text_step(bytes@, read as int, old(out)@, exchange.phase, out@);
        }
        exchange.advance(Event::Byte(bytes[read]), out);
        read = read + 1;
    }
    proof {
        if bytes@.len() > 0 {
            lemma_scan_within(bytes@.skip(1), 0, 0, cap);
            if read > 0 && !(exchange.phase is Finished) {
                assert(bytes@.skip(1).skip(read - 1) =~= Seq::<u8>::empty());
            }
        }
    }
    exchange.advance(Event::Fault, out);
    match exchange.result() {
        Some(Ok(Reply::Text(n))) => Ok(n),
        Some(Err(e)) => Err(e),
        _ => Err(ComError::MalformedFrame),
    }
}

/// The string frame that carries `content`: the tag, the content and the
/// terminator.
pub open spec fn text_frame(content: Seq<u8>) -> Seq<u8> {
    seq![STRING_HEAD] + content + terminator()
}

/// Content without a `0xFF` byte, followed by the terminator, is read to its
/// end or until the buffer is full.
proof fn lemma_scan_content(content: Seq<u8>, stored: nat, cap: nat)
    requires
        free_of_end(content),
        stored <= cap,
    ensures
        scan_text(content + terminator(), stored, 0, cap) == Ok::<nat, ComError>(
            if stored + content.len() <= cap {
                stored + content.len()
            } else {
                cap
            },
        ),
    decreases content.len(),
{
    let body = content + terminator();
    if stored >= cap {
    } else if content.len() == 0 {
        assert(body =~= terminator());
        let second = body.drop_first();
        let third = second.drop_first();
        assert(second[0] == END);
        assert(third[0] == END);
        assert(scan_text(third, stored, 2, cap) == Ok::<nat, ComError>(stored));
        assert(scan_text(second, stored, 1, cap) == Ok::<nat, ComError>(stored));
    } else {
        assert(body[0] == content[0]);
        assert(body.drop_first() =~= content.drop_first() + terminator());
        if stored + 1 < cap {
            lemma_scan_content(content.drop_first(), stored + 1, cap);
        }
    }
}

/// Round trip: content without a `0xFF` byte is decoded from the frame that
/// carries it, cut to the buffer's size if it is longer.
pub proof fn lemma_text_round_trip(content: Seq<u8>, cap: nat)
    requires
        free_of_end(content),
    ensures
        text_outcome(text_frame(content), cap) == Ok::<nat, ComError>(
            if content.len() <= cap {
                content.len()
            } else {
                cap
            },
        ),
{
    assert(text_frame(content).skip(1) =~= content + terminator());
    lemma_scan_content(content, 0, cap);
}

} // verus!
