//! Wire level of the protocol: tags, errors, the frame codec, the exchange
//! state machine, and the device that runs exchanges on a transport.

pub mod buffer;
pub mod codec;
pub mod command;
pub mod device;
pub mod error;
pub mod exchange;
pub mod number;
pub mod record;
pub mod transport;

pub use self::command::{IntoU8, NextionCmd, TagClass};
pub use self::device::Nextion;
pub use self::error::{ComError, ErrorKind};
pub use self::transport::{Transport, TransportFault};
