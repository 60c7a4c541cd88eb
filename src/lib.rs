pub mod boundary;
pub mod demux;
pub mod error;
pub mod mlp;
pub mod playlist;
pub mod segment;
pub mod streams;
pub mod sync;
pub mod timing;
pub mod truehd;
