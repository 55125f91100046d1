//! Real-time primitives for a MIDI binding layer: a bounded FIFO queue of
//! events and a periodic timer whose decisions are verified.

pub mod midi;
pub mod time;
pub mod util;
