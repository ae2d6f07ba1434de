//! The decision logic of an EtherCAT master.

pub mod bytes;
pub mod client;
pub mod command;
pub mod error;
pub mod pdi;
pub mod pdu_data;
pub mod register;
pub mod slave;
pub mod slave_group;
pub mod state;
pub mod text;

