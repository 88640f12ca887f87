//! The storage layer: the byte layout, the connection to a medium and the
//! blocks kept on it.

pub mod block;
pub mod block_type;
pub mod error;
pub mod format;
pub mod free_list;
pub mod layout;
pub mod medium;
pub mod memory;
pub mod payload;
pub mod storage_connection;
pub mod storage_writer;
pub mod stream_provider;
pub mod superblock;
