//! The declarative description of an attribute, and the values attributes
//! take.

use super::objects::{
    NumberFormat, TextHorizontalAlignment, TextScrollDirection, TextType, TextVerticalAlignment,
};
use crate::nextion::buffer::effective_capacity;
use crate::nextion::command::IntoU8;
use crate::nextion::error::ComError;
use crate::nextion::exchange::{Expect, Reply};
use crate::nextion::number::{decimal_text, IntWidth};
use vstd::prelude::*;
use vstd::string::StringSliceAdditionalSpecFns;

verus! {


/// The enumerations an attribute may range over.
#[derive(Clone, Copy, Debug, PartialEq, Eq, Structural)]
pub enum EnumKind {
    /// Off and on, with the codes 0 and 1.
    Flag,
    /// A `TextScrollDirection`.
    ScrollDirection,
    /// A `TextType`.
    TextType,
    /// A `NumberFormat`.
    NumberFormat,
    /// A `TextHorizontalAlignment`.
    HorizontalAlignment,
    /// A `TextVerticalAlignment`.
    VerticalAlignment,
}

/// How an attribute travels on the wire.
#[derive(Clone, Copy, Debug, PartialEq, Eq, Structural)]
pub enum WireKind {
    /// As a number held at the given width.
    Integer(IntWidth),
    /// As a string.
    Text,
    /// As the one-byte code of a variant of the given enumeration.
    Enum(EnumKind),
}

/// The values an attribute accepts, both ends included.
#[derive(Clone, Copy, Debug, PartialEq, Eq, Structural)]
pub struct ValueRange {
    /// The least accepted value.
    pub min: i64,
    /// The greatest accepted value.
    pub max: i64,
}

/// The description of one attribute: its key, its wire kind, the values it
/// accepts and the capacities of its two command buffers.
#[derive(Clone, Copy, Debug, PartialEq, Eq)]
pub struct AttributeSpec<'a> {
    /// The name of the attribute in commands.
    pub key: &'a str,
    /// How the value travels.
    pub wire_kind: WireKind,
    /// The accepted numbers, where not every number of the wire kind is.
    pub valid_range: Option<ValueRange>,
    /// The most bytes an assignment to the attribute may take.
    pub set_capacity: usize,
    /// The most bytes a query of the attribute may take.
    pub get_capacity: usize,
}

/// The value of an attribute. `T` is what stands for a text: the text itself
/// where a value is written, its length where one was read.
#[derive(Copy, Debug, PartialEq, Eq)]
pub enum Value<T> {
    /// A number.
    Integer(i64),
    /// A text.
    Text(T),
    /// Off or on.
    Flag(bool),
    /// A scroll direction.
    ScrollDirection(TextScrollDirection),
    /// A text type.
    TextType(TextType),
    /// A number format.
    NumberFormat(NumberFormat),
    /// A horizontal alignment.
    HorizontalAlignment(TextHorizontalAlignment),
    /// A vertical alignment.
    VerticalAlignment(TextVerticalAlignment),
}

impl<T: Copy> Clone for Value<T> {
    fn clone(&self) -> (copy: Self)
        ensures
            copy == *self,
    {
        *self
    }
}

impl<T> Value<T> {
    /// The number that stands for the value on the wire; a text has none.
    pub open spec fn number(self) -> Option<int> {
        match self {
            Value::Integer(value) => Some(value as int),
            Value::Text(_) => None,
            Value::Flag(on) => Some(
                if on {
                    1
                } else {
                    0
                },
            ),
            Value::ScrollDirection(direction) => Some(direction.code() as int),
            Value::TextType(text_type) => Some(text_type.code() as int),
            Value::NumberFormat(format) => Some(format.code() as int),
            Value::HorizontalAlignment(alignment) => Some(alignment.code() as int),
            Value::VerticalAlignment(alignment) => Some(alignment.code() as int),
        }
    }

    /// Whether the value is of the sort that `kind` carries.
    pub open spec fn suits(self, kind: WireKind) -> bool {
        match (kind, self) {
            (WireKind::Integer(width), Value::Integer(value)) => width.holds(value as int),
            (WireKind::Text, Value::Text(_)) => true,
            (WireKind::Enum(EnumKind::Flag), Value::Flag(_)) => true,
            (WireKind::Enum(EnumKind::ScrollDirection), Value::ScrollDirection(_)) => true,
            (WireKind::Enum(EnumKind::TextType), Value::TextType(_)) => true,
            (WireKind::Enum(EnumKind::NumberFormat), Value::NumberFormat(_)) => true,
            (WireKind::Enum(EnumKind::HorizontalAlignment), Value::HorizontalAlignment(_)) => true,
            (WireKind::Enum(EnumKind::VerticalAlignment), Value::VerticalAlignment(_)) => true,
            _ => false,
        }
    }
}

impl EnumKind {
    /// The variant that `code` stands for in this enumeration, or
    /// `InvalidValue` if it stands for none.
    pub open spec fn variant(self, code: int) -> Result<Value<usize>, ComError> {
        if !(0 <= code <= 0xFF) {
            Err(ComError::InvalidValue)
        } else {
            match self {
                EnumKind::Flag => if code == 0 {
                    Ok(Value::Flag(false))
                } else if code == 1 {
                    Ok(Value::Flag(true))
                } else {
                    Err(ComError::InvalidValue)
                },
                EnumKind::ScrollDirection => match TextScrollDirection::spec_from_u8(code as u8) {
                    Ok(direction) => Ok(Value::ScrollDirection(direction)),
                    Err(e) => Err(e),
                },
                EnumKind::TextType => match TextType::spec_from_u8(code as u8) {
                    Ok(text_type) => Ok(Value::TextType(text_type)),
                    Err(e) => Err(e),
                },
                EnumKind::NumberFormat => match NumberFormat::spec_from_u8(code as u8) {
                    Ok(format) => Ok(Value::NumberFormat(format)),
                    Err(e) => Err(e),
                },
                EnumKind::HorizontalAlignment => match TextHorizontalAlignment::spec_from_u8(
                    code as u8,
                ) {
                    Ok(alignment) => Ok(Value::HorizontalAlignment(alignment)),
                    Err(e) => Err(e),
                },
                EnumKind::VerticalAlignment => match TextVerticalAlignment::spec_from_u8(
                    code as u8,
                ) {
                    Ok(alignment) => Ok(Value::VerticalAlignment(alignment)),
                    Err(e) => Err(e),
                },
            }
        }
    }

    /// Converts a received code to the variant it stands for; a code that
    /// stands for none fails with `InvalidValue`.
    pub fn to_variant(self, code: i64) -> (value: Result<Value<usize>, ComError>)
        ensures
            value == self.variant(code as int),
    {
        if code < 0 || code > 0xFF {
            return Err(ComError::InvalidValue);
        }
        let byte: u8 = code as u8;
        match self {
            EnumKind::Flag => match byte {
                0 => Ok(Value::Flag(false)),
                1 => Ok(Value::Flag(true)),
                _ => Err(ComError::InvalidValue),
            },
            EnumKind::ScrollDirection => match TextScrollDirection::from_u8(byte) {
                Ok(direction) => Ok(Value::ScrollDirection(direction)),
                Err(e) => Err(e),
            },
            EnumKind::TextType => match TextType::from_u8(byte) {
                Ok(text_type) => Ok(Value::TextType(text_type)),
                Err(e) => Err(e),
            },
            EnumKind::NumberFormat => match NumberFormat::from_u8(byte) {
                Ok(format) => Ok(Value::NumberFormat(format)),
                Err(e) => Err(e),
            },
            EnumKind::HorizontalAlignment => match TextHorizontalAlignment::from_u8(byte) {
                Ok(alignment) => Ok(Value::HorizontalAlignment(alignment)),
                Err(e) => Err(e),
            },
            EnumKind::VerticalAlignment => match TextVerticalAlignment::from_u8(byte) {
                Ok(alignment) => Ok(Value::VerticalAlignment(alignment)),
                Err(e) => Err(e),
            },
        }
    }
}

/// The bytes that stand for `value` in an assignment: a text as it is,
/// anything else as the decimal text of its number.
pub open spec fn wire_text(value: Value<&str>) -> Seq<u8> {
    match value {
        Value::Text(text) => text.spec_bytes(),
        _ => decimal_text(value.number()->0),
    }
}

impl<'a> AttributeSpec<'a> {
    /// Whether the attribute accepts `value`: it is of the attribute's wire
    /// kind, and its number, if it has one, lies in the valid range.
    pub open spec fn admits(self, value: Value<&str>) -> bool {
        &&& value.suits(self.wire_kind)
        &&& match (self.valid_range, value.number()) {
            (Some(range), Some(number)) => range.min <= number <= range.max,
            _ => true,
        }
    }

    /// The answer that a query of the attribute awaits. A code travels as a
    /// number of eight bits.
    pub open spec fn expects(self) -> Expect {
        match self.wire_kind {
            WireKind::Integer(width) => Expect::Number(width),
            WireKind::Text => Expect::Text,
            WireKind::Enum(_) => Expect::Number(IntWidth::U8),
        }
    }

    /// The value that `reply` means for the attribute. A number is taken as
    /// it is, or as the variant it stands for; a text is given by its length.
    /// An unmapped code fails with `InvalidValue`, a reply of another kind
    /// than the attribute's with `MalformedFrame`.
    pub open spec fn reading(self, reply: Reply) -> Result<Value<usize>, ComError> {
        match (self.wire_kind, reply) {
            (WireKind::Integer(_), Reply::Number(value)) => Ok(Value::Integer(value)),
            (WireKind::Text, Reply::Text(length)) => Ok(Value::Text(length)),
            (WireKind::Enum(kind), Reply::Number(code)) => kind.variant(code as int),
            _ => Err(ComError::MalformedFrame),
        }
    }
}

impl EnumKind {
    /// The greatest code of the enumeration; its codes are the numbers from 0
    /// up to this one.
    pub open spec fn last_code(self) -> int {
        match self {
            EnumKind::Flag => 1,
            EnumKind::ScrollDirection => 3,
            EnumKind::TextType => 1,
            EnumKind::NumberFormat => 2,
            EnumKind::HorizontalAlignment => 2,
            EnumKind::VerticalAlignment => 2,
        }
    }
}

/// The codes of an enumeration are the numbers from 0 to its last code, and
/// no others.
pub proof fn lemma_codes_are_dense(kind: EnumKind, code: int)
    ensures
        kind.variant(code) is Ok <==> 0 <= code <= kind.last_code(),
{
}

impl<'a> AttributeSpec<'a> {
    /// The least and the greatest number the attribute accepts. Where the
    /// first is above the second, it accepts none.
    pub open spec fn number_bounds(self) -> (int, int) {
        let (low, high) = match self.wire_kind {
            WireKind::Integer(width) => (width.min(), width.max()),
            WireKind::Enum(kind) => (0, kind.last_code()),
            WireKind::Text => (0, -1),
        };
        match self.valid_range {
            Some(range) => (
                if range.min > low {
                    range.min as int
                } else {
                    low
                },
                if range.max < high {
                    range.max as int
                } else {
                    high
                },
            ),
            None => (low, high),
        }
    }

    /// The length of the longest text that any number the attribute accepts
    /// takes in an assignment.
    pub open spec fn longest_number(self) -> nat {
        let (low, high) = self.number_bounds();
        if low > high {
            0
        } else if decimal_text(low).len() >= decimal_text(high).len() {
            decimal_text(low).len()
        } else {
            decimal_text(high).len()
        }
    }

    /// Whether a name of `name_len` bytes is short enough for the attribute:
    /// the query fits the capacity for queries and, unless the attribute is a
    /// text, the longest assignment fits the capacity for assignments.
    pub open spec fn has_room_for(self, name_len: nat) -> bool {
        &&& 4 + name_len + 1 + self.key.spec_bytes().len() <= effective_capacity(self.get_capacity)
        &&& self.wire_kind != WireKind::Text ==> name_len + 1 + self.key.spec_bytes().len() + 1
            + self.longest_number() <= effective_capacity(self.set_capacity)
    }
}

} // verus!
