//! Small helpers shared between the generator and the threads that read its output.

pub mod raw_ptr;
