//! Library for a small freestanding system: a fixed-capacity memory
//! allocator with a packed block-header encoding, together with the pure
//! parts of the board support (text display model, timers, seven-segment
//! display plans) and of the falling-block game built on top of it.
//!
//! The heart of the crate is the allocator stack:
//! [`entry`] defines the packed block header, [`buffer`] the heap arena and
//! its traversal, [`raw_allocator`] the alignment-oblivious search and
//! free/coalesce algorithm, and [`allocator`] the alignment-adapting
//! public surface.

pub mod allocator;
pub mod board;
pub mod buffer;
pub mod console;
pub mod entry;
pub mod input;
pub mod level;
pub mod logic;
pub mod math;
pub mod menu;
pub mod monitor;
pub mod raw_allocator;
pub mod rng;
pub mod state;
pub mod tasks;
pub mod tetromino;
pub mod time;
pub mod tube;
pub mod ui;
