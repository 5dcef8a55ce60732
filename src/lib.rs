//! A D-Bus client core: typed values and their signatures, the marshaller that
//! writes values through a message cursor and reads them back, the message
//! kinds, and the decisions of the blocking call protocol.

pub mod bus;
pub mod connection;
pub mod error;
pub mod value;
pub mod wire;
pub mod marshal;
pub mod message;
