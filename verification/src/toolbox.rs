//! Small helpers that need neither an allocator nor an operating system.

pub mod fmt;
