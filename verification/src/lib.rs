//! Client for a serial-attached touch panel that speaks ASCII commands closed
//! by three `0xFF` bytes and answers with tagged frames.
//!
//! [`nextion`] holds the wire level: the frame codec, the exchange state
//! machine, which decides every step of a command or query without doing any
//! I/O itself, and the device, which runs exchanges on a transport of the
//! caller and keeps a record of every operation it makes. [`components`]
//! holds the component handles and the attribute channel, one way to write
//! and read any attribute from its declarative description.

// Imports that only contracts use are gone once the contracts are erased.
#![allow(unused_imports)]

pub mod components;
pub mod nextion;
