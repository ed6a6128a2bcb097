//! Selection of the pre-built Bash variant to run on a host, and the pure
//! decisions of the launcher that supervises the server child process.

pub mod bash_selection;
pub mod constants;
pub mod os_release;
pub mod platform;
pub mod supervisor;
pub mod text;
pub mod types;
