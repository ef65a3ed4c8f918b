//! What the agent inside a VM decides: how requests are answered, how much of a
//! program's output is kept, who a command runs as, and what the agent does as
//! the guest's init.

pub mod answer;
pub mod args;
pub mod init;
pub mod user;
