//! Verified core of a Linux user-space driver for the VINSA 1060 Plus
//! drawing tablet: report decoding, the state machine that turns reports
//! into input events, and the USB set-up decisions.
pub mod packet;
pub mod events;
pub mod dispatcher;
pub mod usb;
pub mod dispatch_laws;
pub mod settings;
