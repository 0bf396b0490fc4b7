//! A small log-structured key-value store and its client-server protocol.
pub mod codec;
pub mod msg_parse;
pub mod msg_gen;
pub mod serial;
pub mod logfile;
pub mod pakv1;
pub mod replay;
pub mod pakv2;
pub mod meta;
pub mod compact;
pub mod index;
pub mod pakv4;
pub mod pakv5;
pub mod worker;
pub mod kernel;
pub mod recovery;
pub mod text;
pub mod client;
pub mod server_app;
