//! Input decoding and start-up decisions of the CKB node fuzzing harnesses.
pub mod byte_stream;
pub mod fuzz_export;
pub mod launcher;
pub mod multiaddr_text;
pub mod peer_id;
pub mod peer_store_input;
pub mod protocols;
