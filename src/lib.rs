//! Host-side engine for a bootloader's request/response protocol over a
//! byte stream: checksums, packet framing, reply decoding and chunked
//! memory transfers.
pub mod address;
pub mod checksum;
pub mod command;
pub mod packet;
pub mod ports;
pub mod reply;
pub mod transfer;
