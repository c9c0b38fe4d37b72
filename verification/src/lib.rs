//! Chunked, authenticated encryption of content assets.
//!
//! An asset's content is cut into chunks of an adaptively chosen size, each
//! chunk is sealed with AES-256-GCM and addressed by the SHA-256 digest of its
//! sealed bytes. Every function carries a contract that Verus checks; the two
//! cryptographic primitives themselves are trusted and named in `cipher` and
//! `digest`.
//!
//! Every chunk is sealed under the same all-zero nonce. Under one key this
//! voids the confidentiality and integrity that AES-GCM otherwise gives: the
//! format is kept as it is for compatibility and must be treated as insecure.

pub mod cipher;
pub mod codec;
pub mod digest;
pub mod error;
pub mod model;
pub mod sizing;
pub mod split;

pub use codec::{chunk_encrypt, decrypt_chunk, encrypt_chunks};
pub use digest::compute_full_hash;
pub use error::ChunkError;
pub use model::{
    create_chunk, create_intellectual_property, create_metadata, get_chunk_data,
    get_chunk_file_type, get_chunk_hash, get_chunk_index, get_ip_content, get_ip_creator_id,
    get_ip_file_size, get_ip_file_type, get_ip_is_premium, get_ip_metadata, get_ip_price_dct,
    Chunk, IntellectualProperty, Metadata,
};
pub use sizing::compute_chunk_size;
