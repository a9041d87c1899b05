//! Verified core of a hardware-monitor overlay: the wire formats it reads
//! from shared memory and from the monitor pipe, the commands it sends, the
//! decisions of its connection loop, its settings store and the checks it
//! makes on the results of system commands.

pub mod text;
pub mod wire;
pub mod pipe;
pub mod hwinfo;
pub mod mahm;
pub mod config;
pub mod process;
