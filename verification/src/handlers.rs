use vstd::prelude::*;

pub mod console_handler;
pub mod file_handler;
pub mod memory_handler;
pub mod remote_handler;

pub use console_handler::ConsoleHandler;
pub use file_handler::FileHandler;
pub use memory_handler::MemoryHandler;
pub use remote_handler::RemoteHandler;

verus! {

/// Per-sink delivery failures, isolated to the failing sink.
#[derive(Debug)]
pub enum SinkError {
    Io(String),
    Compression(String),
    Connection(String),
    Send(String),
}

/// The closed set of configurable delivery destinations.
pub enum LogHandler {
    Console(console_handler::ConsoleHandler),
    File(file_handler::FileHandler),
    Memory(memory_handler::MemoryHandler),
    Remote(remote_handler::RemoteHandler),
}

} // verus!
