//! Media-pipeline orchestration for a desktop video editor: argument and
//! filter-graph synthesis for the transcoding engine, supervision of capture
//! sessions, and extraction of preview frames from a piped byte stream.
pub mod capture;
pub mod composite;
pub mod concat;
pub mod demux;
pub mod devices;
pub mod error;
pub mod graph;
pub mod info;
pub mod protocol;
pub mod supervisor;
pub mod text;
pub mod tier;
pub mod timecode;
pub mod trim;
