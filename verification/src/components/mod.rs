//! Components of the display: their identity, their kinds and their
//! attributes.

pub mod attribute;
pub mod channel;
pub mod handler;
pub mod objects;

use vstd::prelude::*;

verus! {

/// What identifies a component on the display.
pub trait BaseInfo {
    /// The id of the page the component stands on.
    spec fn page_id(&self) -> u8;

    /// The id of the component within its page.
    spec fn component_id(&self) -> u8;

    /// The name under which commands address the component.
    spec fn component_name(&self) -> &str;

    /// Gives the page id.
    fn get_page_id(&self) -> (pid: u8)
        ensures
            pid == self.page_id(),
    ;

    /// Gives the component id.
    fn get_component_id(&self) -> (cid: u8)
        ensures
            cid == self.component_id(),
    ;

    /// Gives the component name.
    fn get_component_name(&self) -> (name: &str)
        ensures
            name == self.component_name(),
    ;
}

/// The identity of a component: page id, component id and name.
#[derive(Clone, Copy, Debug, PartialEq, Eq)]
pub struct NextionBaseObj<'life> {
    /// The id of the page.
    pub pid: u8,
    /// The id of the component within the page.
    pub cid: u8,
    /// The name of the component.
    pub name: &'life str,
}

impl<'l> NextionBaseObj<'l> {
    /// Creates the identity of the component `name`, which stands on page
    /// `pid` with the id `cid`.
    pub fn new(pid: u8, cid: u8, name: &'l str) -> (base: Self)
        ensures
            base == (NextionBaseObj { pid, cid, name }),
    {
        NextionBaseObj { pid, cid, name }
    }
}

impl BaseInfo for NextionBaseObj<'_> {
    open spec fn page_id(&self) -> u8 {
        self.pid
    }

    open spec fn component_id(&self) -> u8 {
        self.cid
    }

    open spec fn component_name(&self) -> &str {
        self.name
    }

    fn get_page_id(&self) -> (pid: u8) {
        self.pid
    }

    fn get_component_id(&self) -> (cid: u8) {
        self.cid
    }

    fn get_component_name(&self) -> (name: &str) {
        self.name
    }
}

} // verus!
