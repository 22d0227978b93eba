//! Client side of an archive control protocol: little-endian byte buffers,
//! schema-versioned message codecs, fragment reassembly, response polling and
//! request orchestration with bounded retries.

pub mod bytes;
pub mod expandable_array_buffer;
pub mod sbe;
pub mod codec;
pub mod enums;
pub mod catalog_header_codec;
pub mod mark_file_header_codec;
pub mod control_message;
pub mod fragment_assembler;
pub mod transport;
pub mod nano_clock;
pub mod archive_proxy;
pub mod control_response_poller;
pub mod recording_descriptor_poller;
pub mod configuration;
pub mod context;
pub mod aeron_archive;
