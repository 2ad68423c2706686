//! The platform layer user programs link against: I/O errors, time, threads,
//! environment, paths, standard streams, processes, files and sockets.
pub mod io_error;
pub mod net;
pub mod time;
pub mod fs;
pub mod thread;
pub mod env;
pub mod os;
pub mod stdio;
pub mod path;
pub mod args;
pub mod command;
pub mod errno;
