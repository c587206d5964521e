//! A stream-processing runtime core: records and elements, channels,
//! partitioners, execution-graph compilation, barrier alignment and
//! checkpoint bookkeeping.
pub mod element;
pub mod text;
pub mod channel;
pub mod splits;
pub mod graph;
pub mod align;
pub mod checkpoint;
pub mod storage;
pub mod partition;
pub mod source;
pub mod system_input;
pub mod pubsub;
pub mod deployment;
pub mod elasticsearch;
pub mod kafka;
pub mod output_mapper;
pub mod codec;
pub mod watermark;
