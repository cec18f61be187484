//! Selection and supervision rules for tailing the logs of many pods at once.

pub mod arg;
pub mod ctime;
pub mod logger;
pub mod pod;
pub mod selector;
pub mod state;
pub mod text;
pub mod utc_time;
pub mod watch;
