//! The binary wire protocol: frames, their codec, and the typed requests
//! and responses that frames carry.

pub mod codec;
pub mod command;
pub mod extended_commands;
pub mod frame;
pub mod payload;
pub mod response;

pub use codec::VcpCodec;
pub use command::Command;
pub use extended_commands::ExtendedCommand;
pub use response::Response;
pub use frame::{Frame, FrameHeader, OpCode, ProtocolError, HEADER_SIZE, MAGIC, VERSION};
