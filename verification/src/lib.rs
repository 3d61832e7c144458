//! Batch operations on remote hosts: which hosts are chosen, where files go,
//! and how a run moves from connecting to dispatching to joining.

pub mod address;
pub mod channel;
pub mod connect;
pub mod dispatch;
pub mod error;
pub mod fanout;
pub mod operation;
pub mod path;
pub mod report;
pub mod run;
pub mod select;
pub mod server;
pub mod text;
