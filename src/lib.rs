//! Acquisition core of a refractometer control panel: the loop state of the
//! worker that reads fixed-size frames from a serial device, the session that
//! starts and stops that worker and keeps the timestamped history, and the
//! list of ports offered to the operator.

pub mod ports;
pub mod reader;
pub mod session;
