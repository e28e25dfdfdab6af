//! Component handles, their touch handlers, and the enumerated values that
//! attributes take.

use super::handler::HandlerSlot;
use super::{BaseInfo, NextionBaseObj};
use crate::nextion::command::IntoU8;
use crate::nextion::error::ComError;
use vstd::prelude::*;

verus! {

/// The direction in which a scrolling text moves.
#[derive(Clone, Copy, Debug, PartialEq, Eq, Structural)]
pub enum TextScrollDirection {
    /// Code 0.
    LeftToRigth,
    /// Code 1.
    RightToLeft,
    /// Code 2.
    UpToBottom,
    /// Code 3.
    BottomToUp,
}

impl IntoU8 for TextScrollDirection {
    open spec fn code(self) -> u8 {
        match self {
            TextScrollDirection::LeftToRigth => 0,
            TextScrollDirection::RightToLeft => 1,
            TextScrollDirection::UpToBottom => 2,
            TextScrollDirection::BottomToUp => 3,
        }
    }

    fn into_u8(self) -> (byte: u8) {
        match self {
            TextScrollDirection::LeftToRigth => 0,
            TextScrollDirection::RightToLeft => 1,
            TextScrollDirection::UpToBottom => 2,
            TextScrollDirection::BottomToUp => 3,
        }
    }
}

impl TextScrollDirection {
    /// The direction that `data` stands for.
    pub open spec fn spec_from_u8(data: u8) -> Result<Self, ComError> {
        if data == 0 {
            Ok(Self::LeftToRigth)
        } else if data == 1 {
            Ok(Self::RightToLeft)
        } else if data == 2 {
            Ok(Self::UpToBottom)
        } else if data == 3 {
            Ok(Self::BottomToUp)
        } else {
            Err(ComError::InvalidValue)
        }
    }

    /// Maps a wire code to its direction; a code that stands for none fails
    /// with `InvalidValue`.
    pub fn from_u8(data: u8) -> (direction: Result<Self, ComError>)
        ensures
            direction == Self::spec_from_u8(data),
    {
        match data {
            0 => Ok(Self::LeftToRigth),
            1 => Ok(Self::RightToLeft),
            2 => Ok(Self::UpToBottom),
            3 => Ok(Self::BottomToUp),
            _ => Err(ComError::InvalidValue),
        }
    }
}

/// How a text component shows what is typed.
#[derive(Clone, Copy, Debug, PartialEq, Eq, Structural)]
pub enum TextType {
    /// Code 0: as typed.
    Character,
    /// Code 1: masked.
    Password,
}

impl IntoU8 for TextType {
    open spec fn code(self) -> u8 {
        match self {
            TextType::Character => 0,
            TextType::Password => 1,
        }
    }

    fn into_u8(self) -> (byte: u8) {
        match self {
            TextType::Character => 0,
            TextType::Password => 1,
        }
    }
}

impl TextType {
    /// The text type that `data` stands for.
    pub open spec fn spec_from_u8(data: u8) -> Result<Self, ComError> {
        if data == 0 {
            Ok(Self::Character)
        } else if data == 1 {
            Ok(Self::Password)
        } else {
            Err(ComError::InvalidValue)
        }
    }

    /// Maps a wire code to its text type; a code that stands for none fails
    /// with `InvalidValue`.
    pub fn from_u8(data: u8) -> (text_type: Result<Self, ComError>)
        ensures
            text_type == Self::spec_from_u8(data),
    {
        match data {
            0 => Ok(Self::Character),
            1 => Ok(Self::Password),
            _ => Err(ComError::InvalidValue),
        }
    }
}

/// How a number component writes its value.
#[derive(Clone, Copy, Debug, PartialEq, Eq, Structural)]
pub enum NumberFormat {
    /// Code 0.
    Decimal,
    /// Code 1.
    Currency,
    /// Code 2.
    Hex,
}

impl IntoU8 for NumberFormat {
    open spec fn code(self) -> u8 {
        match self {
            NumberFormat::Decimal => 0,
            NumberFormat::Currency => 1,
            NumberFormat::Hex => 2,
        }
    }

    fn into_u8(self) -> (byte: u8) {
        match self {
            NumberFormat::Decimal => 0,
            NumberFormat::Currency => 1,
            NumberFormat::Hex => 2,
        }
    }
}

impl NumberFormat {
    /// The format that `data` stands for.
    pub open spec fn spec_from_u8(data: u8) -> Result<Self, ComError> {
        if data == 0 {
            Ok(Self::Decimal)
        } else if data == 1 {
            Ok(Self::Currency)
        } else if data == 2 {
            Ok(Self::Hex)
        } else {
            Err(ComError::InvalidValue)
        }
    }

    /// Maps a wire code to its format; a code that stands for none fails with
    /// `InvalidValue`.
    pub fn from_u8(data: u8) -> (format: Result<Self, ComError>)
        ensures
            format == Self::spec_from_u8(data),
    {
        match data {
            0 => Ok(Self::Decimal),
            1 => Ok(Self::Currency),
            2 => Ok(Self::Hex),
            _ => Err(ComError::InvalidValue),
        }
    }
}

/// Where a text stands between left and right.
#[derive(Clone, Copy, Debug, PartialEq, Eq, Structural)]
pub enum TextHorizontalAlignment {
    /// Code 0.
    Left,
    /// Code 1.
    Center,
    /// Code 2.
    Right,
}

impl IntoU8 for TextHorizontalAlignment {
    open spec fn code(self) -> u8 {
        match self {
            TextHorizontalAlignment::Left => 0,
            TextHorizontalAlignment::Center => 1,
            TextHorizontalAlignment::Right => 2,
        }
    }

    fn into_u8(self) -> (byte: u8) {
        match self {
            TextHorizontalAlignment::Left => 0,
            TextHorizontalAlignment::Center => 1,
            TextHorizontalAlignment::Right => 2,
        }
    }
}

impl TextHorizontalAlignment {
    /// The alignment that `data` stands for.
    pub open spec fn spec_from_u8(data: u8) -> Result<Self, ComError> {
        if data == 0 {
            Ok(Self::Left)
        } else if data == 1 {
            Ok(Self::Center)
        } else if data == 2 {
            Ok(Self::Right)
        } else {
            Err(ComError::InvalidValue)
        }
    }

    /// Maps a wire code to its alignment; a code that stands for none fails
    /// with `InvalidValue`.
    pub fn from_u8(data: u8) -> (alignment: Result<Self, ComError>)
        ensures
            alignment == Self::spec_from_u8(data),
    {
        match data {
            0 => Ok(Self::Left),
            1 => Ok(Self::Center),
            2 => Ok(Self::Right),
            _ => Err(ComError::InvalidValue),
        }
    }
}

/// Where a text stands between top and bottom.
#[derive(Clone, Copy, Debug, PartialEq, Eq, Structural)]
pub enum TextVerticalAlignment {
    /// Code 0.
    Top,
    /// Code 1.
    Middle,
    /// Code 2.
    Bottom,
}

impl IntoU8 for TextVerticalAlignment {
    open spec fn code(self) -> u8 {
        match self {
            TextVerticalAlignment::Top => 0,
            TextVerticalAlignment::Middle => 1,
            TextVerticalAlignment::Bottom => 2,
        }
    }

    fn into_u8(self) -> (byte: u8) {
        match self {
            TextVerticalAlignment::Top => 0,
            TextVerticalAlignment::Middle => 1,
            TextVerticalAlignment::Bottom => 2,
        }
    }
}

impl TextVerticalAlignment {
    /// The alignment that `data` stands for.
    pub open spec fn spec_from_u8(data: u8) -> Result<Self, ComError> {
        if data == 0 {
            Ok(Self::Top)
        } else if data == 1 {
            Ok(Self::Middle)
        } else if data == 2 {
            Ok(Self::Bottom)
        } else {
            Err(ComError::InvalidValue)
        }
    }

    /// Maps a wire code to its alignment; a code that stands for none fails
    /// with `InvalidValue`.
    pub fn from_u8(data: u8) -> (alignment: Result<Self, ComError>)
        ensures
            alignment == Self::spec_from_u8(data),
    {
        match data {
            0 => Ok(Self::Top),
            1 => Ok(Self::Middle),
            2 => Ok(Self::Bottom),
            _ => Err(ComError::InvalidValue),
        }
    }
}

/// Every enumerated value is mapped back from its own code, and a code is
/// mapped only to the value that has it.
pub proof fn lemma_codes_round_trip(
    direction: TextScrollDirection,
    text_type: TextType,
    format: NumberFormat,
    horizontal: TextHorizontalAlignment,
    vertical: TextVerticalAlignment,
    data: u8,
)
    ensures
        TextScrollDirection::spec_from_u8(direction.code()) == Ok::<_, ComError>(direction),
        TextType::spec_from_u8(text_type.code()) == Ok::<_, ComError>(text_type),
        NumberFormat::spec_from_u8(format.code()) == Ok::<_, ComError>(format),
        TextHorizontalAlignment::spec_from_u8(horizontal.code()) == Ok::<_, ComError>(horizontal),
        TextVerticalAlignment::spec_from_u8(vertical.code()) == Ok::<_, ComError>(vertical),
        TextScrollDirection::spec_from_u8(data) == Ok::<_, ComError>(direction) ==> direction.code()
            == data,
        TextType::spec_from_u8(data) == Ok::<_, ComError>(text_type) ==> text_type.code() == data,
        NumberFormat::spec_from_u8(data) == Ok::<_, ComError>(format) ==> format.code() == data,
        TextHorizontalAlignment::spec_from_u8(data) == Ok::<_, ComError>(horizontal)
            ==> horizontal.code() == data,
        TextVerticalAlignment::spec_from_u8(data) == Ok::<_, ComError>(vertical) ==> vertical.code()
            == data,
{
}

/// A handle on a component that has no face on the screen, such as a timer
/// or a variable.
#[derive(Clone, Copy, Debug, PartialEq, Eq)]
pub struct NextionObject<'l> {
    base: NextionBaseObj<'l>,
}

impl<'l> NextionObject<'l> {
    /// Binds a handle to the component `name`, which stands on page `pid`
    /// with the id `cid`.
    pub fn bind(pid: u8, cid: u8, name: &'l str) -> (handle: Self)
        ensures
            handle.page_id() == pid,
            handle.component_id() == cid,
            handle.component_name() == name,
    {
        NextionObject { base: NextionBaseObj::new(pid, cid, name) }
    }
}

impl<'l> BaseInfo for NextionObject<'l> {
    closed spec fn page_id(&self) -> u8 {
        self.base.pid
    }

    closed spec fn component_id(&self) -> u8 {
        self.base.cid
    }

    closed spec fn component_name(&self) -> &str {
        self.base.name
    }

    fn get_page_id(&self) -> (pid: u8) {
        self.base.pid
    }

    fn get_component_id(&self) -> (cid: u8) {
        self.base.cid
    }

    fn get_component_name(&self) -> (name: &str) {
        self.base.name
    }
}

/// Storage for the touch handlers of a component: one for the click, one for
/// the release. `H` is the type of a handler.
pub trait TouchHandler<H: FnMut()> {
    /// The handler stored for the click.
    spec fn click_handler(&self) -> Option<H>;

    /// The handler stored for the release.
    spec fn release_handler(&self) -> Option<H>;

    /// How often a click handler was invoked.
    spec fn click_calls(&self) -> nat;

    /// How often a release handler was invoked.
    spec fn release_calls(&self) -> nat;

    /// Stores `handler` for the click, in place of any earlier one. Nothing
    /// is invoked.
    fn set_on_click(&mut self, handler: H)
        ensures
            final(self).click_handler() == Some(handler),
            final(self).release_handler() == old(self).release_handler(),
            final(self).click_calls() == old(self).click_calls(),
            final(self).release_calls() == old(self).release_calls(),
    ;

    /// Stores `handler` for the release, in place of any earlier one. Nothing
    /// is invoked.
    fn set_on_release(&mut self, handler: H)
        ensures
            final(self).release_handler() == Some(handler),
            final(self).click_handler() == old(self).click_handler(),
            final(self).click_calls() == old(self).click_calls(),
            final(self).release_calls() == old(self).release_calls(),
    ;

    /// Invokes the click handler exactly once, if one is stored; does nothing
    /// otherwise. The release handler is not invoked.
    fn call_on_click(&mut self)
        requires
            old(self).click_handler() matches Some(handler) ==> call_requires(handler, ()),
        ensures
            old(self).click_handler() matches Some(handler) ==> call_ensures(handler, (), ()),
            final(self).click_handler() is Some == old(self).click_handler() is Some,
            final(self).release_handler() == old(self).release_handler(),
            final(self).click_calls() == old(self).click_calls() + if old(self).click_handler()
                is Some {
                1nat
            } else {
                0nat
            },
            final(self).release_calls() == old(self).release_calls(),
    ;

    /// Invokes the release handler exactly once, if one is stored; does
    /// nothing otherwise. The click handler is not invoked.
    fn call_on_release(&mut self)
        requires
            old(self).release_handler() matches Some(handler) ==> call_requires(handler, ()),
        ensures
            old(self).release_handler() matches Some(handler) ==> call_ensures(handler, (), ()),
            final(self).release_handler() is Some == old(self).release_handler() is Some,
            final(self).click_handler() == old(self).click_handler(),
            final(self).release_calls() == old(self).release_calls() + if old(
                self,
            ).release_handler() is Some {
                1nat
            } else {
                0nat
            },
            final(self).click_calls() == old(self).click_calls(),
    ;
}

/// A handle on a component that is shown on the screen and can be touched.
pub struct NextionObjectDisplay<'l, H> {
    base: NextionBaseObj<'l>,
    on_click: HandlerSlot<H>,
    on_release: HandlerSlot<H>,
}

impl<'l, H: FnMut()> NextionObjectDisplay<'l, H> {
    /// Binds a handle to the component `name`, which stands on page `pid`
    /// with the id `cid`. No handler is stored yet, and none was invoked.
    pub fn bind(pid: u8, cid: u8, name: &'l str) -> (handle: Self)
        ensures
            handle.page_id() == pid,
            handle.component_id() == cid,
            handle.component_name() == name,
            handle.click_handler() is None,
            handle.release_handler() is None,
            handle.click_calls() == 0,
            handle.release_calls() == 0,
    {
        NextionObjectDisplay {
            base: NextionBaseObj::new(pid, cid, name),
            on_click: HandlerSlot::empty(),
            on_release: HandlerSlot::empty(),
        }
    }
}

impl<'l, H> BaseInfo for NextionObjectDisplay<'l, H> {
    closed spec fn page_id(&self) -> u8 {
        self.base.pid
    }

    closed spec fn component_id(&self) -> u8 {
        self.base.cid
    }

    closed spec fn component_name(&self) -> &str {
        self.base.name
    }

    fn get_page_id(&self) -> (pid: u8) {
        self.base.pid
    }

    fn get_component_id(&self) -> (cid: u8) {
        self.base.cid
    }

    fn get_component_name(&self) -> (name: &str) {
        self.base.name
    }
}

impl<'l, H: FnMut()> TouchHandler<H> for NextionObjectDisplay<'l, H> {
    closed spec fn click_handler(&self) -> Option<H> {
        self.on_click.handler()
    }

    closed spec fn release_handler(&self) -> Option<H> {
        self.on_release.handler()
    }

    closed spec fn click_calls(&self) -> nat {
        self.on_click.calls()
    }

    closed spec fn release_calls(&self) -> nat {
        self.on_release.calls()
    }

    fn set_on_click(&mut self, handler: H)
        ensures
            final(self).page_id() == old(self).page_id(),
            final(self).component_id() == old(self).component_id(),
            final(self).component_name() == old(self).component_name(),
    {
        self.on_click.store(handler);
    }

    fn set_on_release(&mut self, handler: H)
        ensures
            final(self).page_id() == old(self).page_id(),
            final(self).component_id() == old(self).component_id(),
            final(self).component_name() == old(self).component_name(),
    {
        self.on_release.store(handler);
    }

    fn call_on_click(&mut self)
        ensures
            final(self).page_id() == old(self).page_id(),
            final(self).component_id() == old(self).component_id(),
            final(self).component_name() == old(self).component_name(),
    {
        self.on_click.invoke();
    }

    fn call_on_release(&mut self)
        ensures
            final(self).page_id() == old(self).page_id(),
            final(self).component_id() == old(self).component_id(),
            final(self).component_name() == old(self).component_name(),
    {
        self.on_release.invoke();
    }
}

} // verus!
