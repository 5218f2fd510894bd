//! The core of a capture pipeline for the AR2300 IQ board: what the bytes of
//! the sample stream mean, how a capture starts and stops, how transfers
//! follow one another, and the queue between the capture and its consumer.
//!
//! Nothing in this crate talks to a device, sleeps or writes a file. Each
//! part takes what happened as plain values and answers what is to be done
//! next, so that a thin program around it does the input and output.

pub mod firmware;
pub mod iq;
pub mod queue;
pub mod usb;

pub use crate::iq::new_queue;
