use gx_rust_nextion::components::attribute::{
    AttributeSpec, EnumKind, Value, ValueRange, WireKind,
};
use gx_rust_nextion::components::channel::{
    accommodates, assignment, interpret, query, validate, wave_form_pco_key,
};
use gx_rust_nextion::components::objects::{
    NextionObject, NextionObjectDisplay, NumberFormat, TextHorizontalAlignment,
    TextScrollDirection, TextType, TextVerticalAlignment,
};
use gx_rust_nextion::nextion::exchange::{Action, Event, Exchange, Expect, Reply};
use gx_rust_nextion::nextion::number::IntWidth;
use gx_rust_nextion::nextion::{ComError, ErrorKind};

const TXT: AttributeSpec<'static> = AttributeSpec {
    key: "txt",
    wire_kind: WireKind::Text,
    valid_range: None,
    set_capacity: 265,
    get_capacity: 24,
};

const EN: AttributeSpec<'static> = AttributeSpec {
    key: "en",
    wire_kind: WireKind::Integer(IntWidth::U8),
    valid_range: Some(ValueRange { min: 0, max: 1 }),
    set_capacity: 23,
    get_capacity: 23,
};

const BCO: AttributeSpec<'static> = AttributeSpec {
    key: "bco",
    wire_kind: WireKind::Integer(IntWidth::U16),
    valid_range: None,
    set_capacity: 26,
    get_capacity: 24,
};

const TIM: AttributeSpec<'static> = AttributeSpec {
    key: "tim",
    wire_kind: WireKind::Integer(IntWidth::U16),
    valid_range: Some(ValueRange { min: 50, max: 65535 }),
    set_capacity: 26,
    get_capacity: 24,
};

const VAL: AttributeSpec<'static> = AttributeSpec {
    key: "val",
    wire_kind: WireKind::Integer(IntWidth::I32),
    valid_range: None,
    set_capacity: 32,
    get_capacity: 32,
};

const ISBR: AttributeSpec<'static> = AttributeSpec {
    key: "isbr",
    wire_kind: WireKind::Enum(EnumKind::Flag),
    valid_range: None,
    set_capacity: 25,
    get_capacity: 25,
};

const XCEN: AttributeSpec<'static> = AttributeSpec {
    key: "xcen",
    wire_kind: WireKind::Enum(EnumKind::HorizontalAlignment),
    valid_range: None,
    set_capacity: 25,
    get_capacity: 25,
};

fn of_kind(kind: EnumKind) -> AttributeSpec<'static> {
    AttributeSpec {
        key: "x",
        wire_kind: WireKind::Enum(kind),
        valid_range: None,
        set_capacity: 25,
        get_capacity: 25,
    }
}

/// Plays a finished transport: the frame is written and flushed, and the
/// device answers with `answer`.
fn answer(exchange: &mut Exchange, answer: &[u8], out: &mut [u8]) -> Result<Reply, ComError> {
    let mut given = 0;
    loop {
        let event = match exchange.action() {
            Action::Write | Action::Flush => Event::Done,
            Action::Read => {
                if given < answer.len() {
                    given += 1;
                    Event::Byte(answer[given - 1])
                } else {
                    Event::Fault
                }
            }
            Action::Finish(result) => return result,
        };
        exchange.advance(event, out);
    }
}

#[test]
fn assignment_writes_a_text() {
    let handle: NextionObjectDisplay<fn()> = NextionObjectDisplay::bind(0, 0, "t0");
    let frame = assignment(&handle, &TXT, Value::Text("Hello")).unwrap();
    assert_eq!(frame.as_bytes(), b"t0.txt=Hello\xFF\xFF\xFF");
}

#[test]
fn assignment_refuses_two_for_a_boolean_style_attribute() {
    let handle = NextionObject::bind(0, 1, "tm0");
    let err = assignment(&handle, &EN, Value::Integer(2)).err().unwrap();
    assert_eq!(err, ComError::ValueOutOfRange);
    assert_eq!(err.kind(), ErrorKind::Validation);
    assert_eq!(assignment(&handle, &EN, Value::Integer(0)).unwrap().as_bytes(), b"tm0.en=0\xFF\xFF\xFF");
    assert_eq!(assignment(&handle, &EN, Value::Integer(1)).unwrap().as_bytes(), b"tm0.en=1\xFF\xFF\xFF");
    assert_eq!(assignment(&handle, &EN, Value::Integer(-1)).err(), Some(ComError::ValueOutOfRange));
}

#[test]
fn assignment_validates_before_it_encodes() {
    // The name alone passes the capacity, yet the value is what is refused.
    let handle = NextionObject::bind(0, 1, "a_name_far_too_long_for_the_buffer");
    assert_eq!(assignment(&handle, &EN, Value::Integer(2)).err(), Some(ComError::ValueOutOfRange));
    assert_eq!(assignment(&handle, &EN, Value::Integer(1)).err(), Some(ComError::CommandTooLong));
}

#[test]
fn assignment_refuses_a_number_outside_the_range_or_the_width() {
    let handle = NextionObject::bind(0, 1, "tm0");
    assert_eq!(assignment(&handle, &TIM, Value::Integer(49)).err(), Some(ComError::ValueOutOfRange));
    assert_eq!(assignment(&handle, &TIM, Value::Integer(50)).unwrap().as_bytes(), b"tm0.tim=50\xFF\xFF\xFF");
    assert_eq!(
        assignment(&handle, &TIM, Value::Integer(65535)).unwrap().as_bytes(),
        b"tm0.tim=65535\xFF\xFF\xFF"
    );
    assert_eq!(assignment(&handle, &TIM, Value::Integer(65536)).err(), Some(ComError::ValueOutOfRange));
    assert_eq!(assignment(&handle, &BCO, Value::Integer(65536)).err(), Some(ComError::ValueOutOfRange));
    assert_eq!(assignment(&handle, &BCO, Value::Integer(-1)).err(), Some(ComError::ValueOutOfRange));
    assert_eq!(
        assignment(&handle, &VAL, Value::Integer(-2147483648)).unwrap().as_bytes(),
        b"tm0.val=-2147483648\xFF\xFF\xFF"
    );
    assert_eq!(
        assignment(&handle, &VAL, Value::Integer(2147483648)).err(),
        Some(ComError::ValueOutOfRange)
    );
}

#[test]
fn assignment_refuses_a_value_of_another_kind() {
    let handle = NextionObject::bind(0, 1, "t0");
    assert_eq!(assignment(&handle, &TXT, Value::Integer(1)).err(), Some(ComError::ValueOutOfRange));
    assert_eq!(assignment(&handle, &BCO, Value::Text("1")).err(), Some(ComError::ValueOutOfRange));
    assert_eq!(assignment(&handle, &BCO, Value::Flag(true)).err(), Some(ComError::ValueOutOfRange));
    assert_eq!(assignment(&handle, &ISBR, Value::Integer(1)).err(), Some(ComError::ValueOutOfRange));
    assert_eq!(
        assignment(&handle, &XCEN, Value::VerticalAlignment(TextVerticalAlignment::Top)).err(),
        Some(ComError::ValueOutOfRange)
    );
    assert!(!validate(&XCEN, Value::Flag(false)));
    assert!(validate(&XCEN, Value::HorizontalAlignment(TextHorizontalAlignment::Left)));
}

#[test]
fn assignment_writes_a_variant_as_its_code() {
    let handle = NextionObject::bind(0, 1, "t0");
    assert_eq!(assignment(&handle, &ISBR, Value::Flag(true)).unwrap().as_bytes(), b"t0.isbr=1\xFF\xFF\xFF");
    assert_eq!(assignment(&handle, &ISBR, Value::Flag(false)).unwrap().as_bytes(), b"t0.isbr=0\xFF\xFF\xFF");
    assert_eq!(
        assignment(&handle, &XCEN, Value::HorizontalAlignment(TextHorizontalAlignment::Right))
            .unwrap()
            .as_bytes(),
        b"t0.xcen=2\xFF\xFF\xFF"
    );
    assert_eq!(
        assignment(
            &handle,
            &of_kind(EnumKind::ScrollDirection),
            Value::ScrollDirection(TextScrollDirection::BottomToUp)
        )
        .unwrap()
        .as_bytes(),
        b"t0.x=3\xFF\xFF\xFF"
    );
    assert_eq!(
        assignment(&handle, &of_kind(EnumKind::TextType), Value::TextType(TextType::Password))
            .unwrap()
            .as_bytes(),
        b"t0.x=1\xFF\xFF\xFF"
    );
    assert_eq!(
        assignment(&handle, &of_kind(EnumKind::NumberFormat), Value::NumberFormat(NumberFormat::Hex))
            .unwrap()
            .as_bytes(),
        b"t0.x=2\xFF\xFF\xFF"
    );
    assert_eq!(
        assignment(
            &handle,
            &of_kind(EnumKind::VerticalAlignment),
            Value::VerticalAlignment(TextVerticalAlignment::Middle)
        )
        .unwrap()
        .as_bytes(),
        b"t0.x=1\xFF\xFF\xFF"
    );
}

#[test]
fn assignment_applies_a_range_to_codes_too() {
    let handle = NextionObject::bind(0, 1, "t0");
    let narrowed = AttributeSpec {
        valid_range: Some(ValueRange { min: 0, max: 1 }),
        ..of_kind(EnumKind::NumberFormat)
    };
    assert!(assignment(&handle, &narrowed, Value::NumberFormat(NumberFormat::Currency)).is_ok());
    assert_eq!(
        assignment(&handle, &narrowed, Value::NumberFormat(NumberFormat::Hex)).err(),
        Some(ComError::ValueOutOfRange)
    );
}

#[test]
fn assignment_fails_when_the_command_passes_the_attributes_capacity() {
    // "sixteen_letters_.bco=65535" takes 16 + 5 + 5 = 26 bytes.
    let handle = NextionObject::bind(0, 1, "sixteen_letters_");
    assert!(assignment(&handle, &BCO, Value::Integer(65535)).is_ok());
    let handle = NextionObject::bind(0, 1, "seventeen_letters");
    assert_eq!(assignment(&handle, &BCO, Value::Integer(65535)).err(), Some(ComError::CommandTooLong));
    assert!(assignment(&handle, &BCO, Value::Integer(6553)).is_ok());
}

#[test]
fn query_writes_the_frame_and_awaits_the_wire_kind() {
    let handle = NextionObject::bind(0, 1, "t0");
    let asked = query(&handle, &TXT).unwrap();
    assert_eq!(asked.frame.as_bytes(), b"get t0.txt\xFF\xFF\xFF");
    assert_eq!(asked.expect, Expect::Text);
    let asked = query(&handle, &BCO).unwrap();
    assert_eq!(asked.frame.as_bytes(), b"get t0.bco\xFF\xFF\xFF");
    assert_eq!(asked.expect, Expect::Number(IntWidth::U16));
    let asked = query(&handle, &XCEN).unwrap();
    assert_eq!(asked.frame.as_bytes(), b"get t0.xcen\xFF\xFF\xFF");
    assert_eq!(asked.expect, Expect::Number(IntWidth::U8));
}

#[test]
fn query_fails_when_it_passes_the_attributes_capacity() {
    // "get " + 16 + ".bco" takes 24 bytes.
    let handle = NextionObject::bind(0, 1, "sixteen_letters_");
    assert!(query(&handle, &BCO).is_ok());
    let handle = NextionObject::bind(0, 1, "seventeen_letters");
    assert_eq!(query(&handle, &BCO).err(), Some(ComError::CommandTooLong));
}

#[test]
fn a_query_reads_a_number() {
    let handle = NextionObject::bind(0, 1, "n0");
    let mut out: [u8; 0] = [];
    let asked = query(&handle, &BCO).unwrap();
    let reply = answer(&mut Exchange::begin(asked.expect), &[0x71, 0xE0, 0x07, 0, 0, 0xFF, 0xFF, 0xFF], &mut out);
    assert_eq!(interpret(&BCO, reply.unwrap()), Ok(Value::Integer(2016)));
}

#[test]
fn a_query_reads_a_text() {
    let handle = NextionObject::bind(0, 1, "t0");
    let mut out = [0u8; 8];
    let asked = query(&handle, &TXT).unwrap();
    let reply = answer(&mut Exchange::begin(asked.expect), b"\x70Hi\xFF\xFF\xFF", &mut out);
    assert_eq!(interpret(&TXT, reply.unwrap()), Ok(Value::Text(2)));
    assert_eq!(&out[..2], b"Hi");
}

#[test]
fn a_query_reads_a_variant() {
    let handle = NextionObject::bind(0, 1, "t0");
    let mut out: [u8; 0] = [];
    let asked = query(&handle, &XCEN).unwrap();
    let reply = answer(&mut Exchange::begin(asked.expect), &[0x71, 1, 0, 0, 0, 0xFF, 0xFF, 0xFF], &mut out);
    assert_eq!(
        interpret(&XCEN, reply.unwrap()),
        Ok(Value::HorizontalAlignment(TextHorizontalAlignment::Center))
    );
    let asked = query(&handle, &ISBR).unwrap();
    let reply = answer(&mut Exchange::begin(asked.expect), &[0x71, 1, 0, 0, 0, 0xFF, 0xFF, 0xFF], &mut out);
    assert_eq!(interpret(&ISBR, reply.unwrap()), Ok(Value::Flag(true)));
}

#[test]
fn a_query_fails_on_an_unmapped_code() {
    let handle = NextionObject::bind(0, 1, "t0");
    let mut out: [u8; 0] = [];
    let asked = query(&handle, &XCEN).unwrap();
    let reply = answer(&mut Exchange::begin(asked.expect), &[0x71, 3, 0, 0, 0, 0xFF, 0xFF, 0xFF], &mut out);
    let err = interpret(&XCEN, reply.unwrap()).err().unwrap();
    assert_eq!(err, ComError::InvalidValue);
    assert_eq!(err.kind(), ErrorKind::Validation);
    let asked = query(&handle, &ISBR).unwrap();
    let reply = answer(&mut Exchange::begin(asked.expect), &[0x71, 2, 0, 0, 0, 0xFF, 0xFF, 0xFF], &mut out);
    assert_eq!(interpret(&ISBR, reply.unwrap()), Err(ComError::InvalidValue));
}

#[test]
fn a_query_fails_on_a_code_beyond_one_byte() {
    let handle = NextionObject::bind(0, 1, "t0");
    let mut out: [u8; 0] = [];
    let asked = query(&handle, &XCEN).unwrap();
    let reply = answer(&mut Exchange::begin(asked.expect), &[0x71, 0, 1, 0, 0, 0xFF, 0xFF, 0xFF], &mut out);
    assert_eq!(reply, Err(ComError::UnrepresentableValue));
}

#[test]
fn interpret_maps_every_code_of_every_enumeration() {
    let cases: [(EnumKind, i64, Result<Value<usize>, ComError>); 23] = [
        (EnumKind::Flag, 0, Ok(Value::Flag(false))),
        (EnumKind::Flag, 1, Ok(Value::Flag(true))),
        (EnumKind::Flag, 2, Err(ComError::InvalidValue)),
        (EnumKind::ScrollDirection, 0, Ok(Value::ScrollDirection(TextScrollDirection::LeftToRigth))),
        (EnumKind::ScrollDirection, 1, Ok(Value::ScrollDirection(TextScrollDirection::RightToLeft))),
        (EnumKind::ScrollDirection, 2, Ok(Value::ScrollDirection(TextScrollDirection::UpToBottom))),
        (EnumKind::ScrollDirection, 3, Ok(Value::ScrollDirection(TextScrollDirection::BottomToUp))),
        (EnumKind::ScrollDirection, 4, Err(ComError::InvalidValue)),
        (EnumKind::TextType, 0, Ok(Value::TextType(TextType::Character))),
        (EnumKind::TextType, 1, Ok(Value::TextType(TextType::Password))),
        (EnumKind::TextType, 2, Err(ComError::InvalidValue)),
        (EnumKind::NumberFormat, 0, Ok(Value::NumberFormat(NumberFormat::Decimal))),
        (EnumKind::NumberFormat, 1, Ok(Value::NumberFormat(NumberFormat::Currency))),
        (EnumKind::NumberFormat, 2, Ok(Value::NumberFormat(NumberFormat::Hex))),
        (EnumKind::NumberFormat, 3, Err(ComError::InvalidValue)),
        (EnumKind::HorizontalAlignment, 0, Ok(Value::HorizontalAlignment(TextHorizontalAlignment::Left))),
        (EnumKind::HorizontalAlignment, 2, Ok(Value::HorizontalAlignment(TextHorizontalAlignment::Right))),
        (EnumKind::HorizontalAlignment, 3, Err(ComError::InvalidValue)),
        (EnumKind::VerticalAlignment, 0, Ok(Value::VerticalAlignment(TextVerticalAlignment::Top))),
        (EnumKind::VerticalAlignment, 2, Ok(Value::VerticalAlignment(TextVerticalAlignment::Bottom))),
        (EnumKind::VerticalAlignment, 3, Err(ComError::InvalidValue)),
        (EnumKind::VerticalAlignment, 256, Err(ComError::InvalidValue)),
        (EnumKind::VerticalAlignment, -1, Err(ComError::InvalidValue)),
    ];
    for (kind, code, expected) in cases {
        assert_eq!(interpret(&of_kind(kind), Reply::Number(code)), expected);
        assert_eq!(kind.to_variant(code), expected);
    }
}

#[test]
fn interpret_refuses_a_reply_of_another_kind() {
    assert_eq!(interpret(&TXT, Reply::Number(1)), Err(ComError::MalformedFrame));
    assert_eq!(interpret(&BCO, Reply::Text(1)), Err(ComError::MalformedFrame));
    assert_eq!(interpret(&BCO, Reply::Sent), Err(ComError::MalformedFrame));
    assert_eq!(interpret(&XCEN, Reply::Text(0)), Err(ComError::MalformedFrame));
}

#[test]
fn a_name_is_short_enough_when_the_longest_commands_fit() {
    // "<name>.bco=65535" in 26 bytes and "get <name>.bco" in 24: 16 bytes of
    // name at most.
    assert!(accommodates(&NextionObject::bind(0, 1, "sixteen_letters_"), &BCO));
    assert!(!accommodates(&NextionObject::bind(0, 1, "seventeen_letters"), &BCO));
    assert!(accommodates(&NextionObject::bind(0, 1, ""), &BCO));
    // "<name>.val=-2147483648" in 32 bytes: 16 bytes of name at most.
    assert!(accommodates(&NextionObject::bind(0, 1, "sixteen_letters_"), &VAL));
    assert!(!accommodates(&NextionObject::bind(0, 1, "seventeen_letters"), &VAL));
    // "<name>.en=1" in 23 bytes would leave room for 19, but "get <name>.en"
    // in 23 bytes leaves room for 16.
    assert!(accommodates(&NextionObject::bind(0, 1, "sixteen_letters_"), &EN));
    assert!(!accommodates(&NextionObject::bind(0, 1, "seventeen_letters"), &EN));
}

#[test]
fn the_assignment_decides_where_the_query_has_room() {
    let wide = AttributeSpec { get_capacity: 265, ..EN };
    // "<name>.en=1" in 23 bytes: 18 bytes of name at most.
    assert!(accommodates(&NextionObject::bind(0, 1, "eighteen_letters_i"), &wide));
    assert!(!accommodates(&NextionObject::bind(0, 1, "nineteen_letters_in"), &wide));
    // Without the range the longest value is 255: 16 bytes of name at most.
    let unbounded = AttributeSpec { valid_range: None, ..wide };
    assert!(accommodates(&NextionObject::bind(0, 1, "sixteen_letters_"), &unbounded));
    assert!(!accommodates(&NextionObject::bind(0, 1, "seventeen_letters"), &unbounded));
    // A range that admits nothing leaves the text of a value out: 19 bytes
    // of name at most.
    let empty = AttributeSpec { valid_range: Some(ValueRange { min: 5, max: 4 }), ..wide };
    assert!(accommodates(&NextionObject::bind(0, 1, "nineteen_letters_in"), &empty));
    assert!(!accommodates(&NextionObject::bind(0, 1, "twenty_letters_in_it"), &empty));
    // The lower end decides where its text is the longer one.
    let signed = AttributeSpec {
        valid_range: Some(ValueRange { min: -100, max: 99 }),
        set_capacity: 12,
        ..VAL
    };
    // "<name>.val=-100" in 12 bytes: 3 bytes of name at most.
    assert!(accommodates(&NextionObject::bind(0, 1, "abc"), &signed));
    assert!(!accommodates(&NextionObject::bind(0, 1, "abcd"), &signed));
}

#[test]
fn a_text_attribute_is_judged_by_its_query() {
    // "get <name>.txt" in 24 bytes: 16 bytes of name at most.
    assert!(accommodates(&NextionObject::bind(0, 1, "sixteen_letters_"), &TXT));
    assert!(!accommodates(&NextionObject::bind(0, 1, "seventeen_letters"), &TXT));
}

#[test]
fn no_capacity_reaches_beyond_the_largest_buffer() {
    let huge = AttributeSpec { set_capacity: usize::MAX, get_capacity: usize::MAX, ..BCO };
    // "get " + name + ".bco" in 265 bytes: 257 bytes of name at most.
    let name = "n".repeat(254);
    assert!(accommodates(&NextionObject::bind(0, 1, &name), &huge));
    assert!(assignment(&NextionObject::bind(0, 1, &name), &huge, Value::Integer(65535)).is_ok());
    // name + ".bco=65535" in 265 bytes: 255 bytes of name at most.
    let name = "n".repeat(255);
    assert!(accommodates(&NextionObject::bind(0, 1, &name), &huge));
    let name = "n".repeat(256);
    assert!(!accommodates(&NextionObject::bind(0, 1, &name), &huge));
    assert_eq!(
        assignment(&NextionObject::bind(0, 1, &name), &huge, Value::Integer(65535)).err(),
        Some(ComError::CommandTooLong)
    );
}

#[test]
fn the_colour_of_a_chart_channel_has_the_channel_in_its_key() {
    assert_eq!(wave_form_pco_key(0), Ok("pco0"));
    assert_eq!(wave_form_pco_key(1), Ok("pco1"));
    assert_eq!(wave_form_pco_key(2), Ok("pco2"));
    assert_eq!(wave_form_pco_key(3), Ok("pco3"));
    assert_eq!(wave_form_pco_key(4), Ok("pco4"));
    assert_eq!(wave_form_pco_key(5), Err(ComError::ValueOutOfRange));
    assert_eq!(wave_form_pco_key(255), Err(ComError::ValueOutOfRange));
    let colour = AttributeSpec {
        key: wave_form_pco_key(3).unwrap(),
        wire_kind: WireKind::Integer(IntWidth::U16),
        valid_range: None,
        set_capacity: 29,
        get_capacity: 27,
    };
    let handle = NextionObject::bind(0, 1, "s0");
    assert_eq!(
        assignment(&handle, &colour, Value::Integer(63488)).unwrap().as_bytes(),
        b"s0.pco3=63488\xFF\xFF\xFF"
    );
    assert_eq!(query(&handle, &colour).unwrap().frame.as_bytes(), b"get s0.pco3\xFF\xFF\xFF");
}
