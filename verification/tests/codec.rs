use aes_gcm::aead::Aead;
use aes_gcm::{Aes256Gcm, KeyInit, Nonce};
use dcrypt_core::cipher::{KEY_LEN, MAX_PLAINTEXT_LEN, NONCE_LEN, TAG_LEN};
use dcrypt_core::{
    chunk_encrypt, compute_chunk_size, compute_full_hash, create_chunk,
    create_intellectual_property, decrypt_chunk, encrypt_chunks, Chunk, ChunkError,
};

fn from_hex(text: &str) -> Vec<u8> {
    (0..text.len())
        .step_by(2)
        .map(|i| u8::from_str_radix(&text[i..i + 2], 16).unwrap())
        .collect()
}

fn sample_key() -> Vec<u8> {
    (0..32u8).map(|i| i.wrapping_mul(7).wrapping_add(3)).collect()
}

fn other_key() -> Vec<u8> {
    (0..32u8).map(|i| i.wrapping_mul(11).wrapping_add(5)).collect()
}

fn sample_content(len: usize) -> Vec<u8> {
    (0..len).map(|i| ((i * 31 + 7) % 256) as u8).collect()
}

fn asset(content: Vec<u8>) -> dcrypt_core::IntellectualProperty {
    create_intellectual_property(
        content,
        String::from("text"),
        vec![String::from("a")],
        false,
        0,
        vec![1, 2, 3],
        String::from("text/plain"),
    )
}

#[test]
fn cipher_constants() {
    assert_eq!(KEY_LEN, 32);
    assert_eq!(NONCE_LEN, 12);
    assert_eq!(TAG_LEN, 16);
    assert_eq!(MAX_PLAINTEXT_LEN, 1u64 << 36);
}

#[test]
fn three_chunk_content_round_trips() {
    let key = sample_key();
    let content = sample_content(2500);
    let chunks = encrypt_chunks(&content, &key, 1000, "text/plain").unwrap();
    assert_eq!(chunks.len(), 3);
    let mut joined: Vec<u8> = Vec::new();
    for chunk in &chunks {
        joined.extend(decrypt_chunk(chunk, key.clone()).unwrap());
    }
    assert_eq!(joined, content);
}

#[test]
fn each_chunk_decrypts_to_its_own_range() {
    let key = sample_key();
    let content = sample_content(2500);
    let chunks = encrypt_chunks(&content, &key, 1000, "text/plain").unwrap();
    assert_eq!(decrypt_chunk(&chunks[0], key.clone()).unwrap(), content[0..1000].to_vec());
    assert_eq!(decrypt_chunk(&chunks[1], key.clone()).unwrap(), content[1000..2000].to_vec());
    assert_eq!(decrypt_chunk(&chunks[2], key.clone()).unwrap(), content[2000..2500].to_vec());
}

#[test]
fn chunk_records_carry_hash_index_and_file_type() {
    let key = sample_key();
    let content = sample_content(2500);
    let chunks = encrypt_chunks(&content, &key, 1000, "image/png").unwrap();
    let plain_lens = [1000usize, 1000, 500];
    for (i, chunk) in chunks.iter().enumerate() {
        assert_eq!(chunk.index, i);
        assert_eq!(chunk.file_type, "image/png");
        assert_eq!(chunk.data.len(), plain_lens[i] + 16);
        assert_eq!(chunk.hash, compute_full_hash(chunk.data.clone()));
        assert_eq!(chunk.hash.len(), 32);
    }
}

#[test]
fn hash_addresses_the_sealed_bytes_not_the_plaintext() {
    let key = sample_key();
    let content = sample_content(64);
    let chunks = encrypt_chunks(&content, &key, 64, "text/plain").unwrap();
    assert_eq!(chunks.len(), 1);
    assert_ne!(chunks[0].hash, compute_full_hash(content.clone()));
    assert_ne!(chunks[0].data[..64].to_vec(), content);
}

#[test]
fn sealed_bytes_are_what_the_cipher_gives_under_the_zero_nonce() {
    let key = sample_key();
    let content = sample_content(300);
    let chunks = encrypt_chunks(&content, &key, 128, "text/plain").unwrap();
    assert_eq!(chunks.len(), 3);
    let cipher = Aes256Gcm::new_from_slice(&key).unwrap();
    let nonce = [0u8; 12];
    let pieces: [&[u8]; 3] = [&content[0..128], &content[128..256], &content[256..300]];
    for (chunk, piece) in chunks.iter().zip(pieces) {
        let expected = cipher.encrypt(Nonce::from_slice(&nonce), piece).unwrap();
        assert_eq!(chunk.data, expected);
    }
}

#[test]
fn known_answer_for_a_block_of_zeros() {
    let key = vec![0u8; 32];
    let content = vec![0u8; 16];
    let chunks = encrypt_chunks(&content, &key, 16, "bin").unwrap();
    assert_eq!(chunks.len(), 1);
    assert_eq!(
        chunks[0].data,
        from_hex("cea7403d4d606b6e074ec5d3baf39d18d0d1c8a799996bf0265b98b5d48ab919")
    );
    assert_eq!(decrypt_chunk(&chunks[0], key).unwrap(), content);
}

#[test]
fn known_answer_for_the_empty_plaintext() {
    let key = vec![0u8; 32];
    let chunk = create_chunk(
        Vec::new(),
        from_hex("530f8afbc74536b9a963b4f1c4cb738b"),
        0,
        String::from("bin"),
    );
    assert_eq!(decrypt_chunk(&chunk, key).unwrap(), Vec::<u8>::new());
}

#[test]
fn empty_content_gives_one_empty_chunk() {
    let key = sample_key();
    let chunks = encrypt_chunks(&[], &key, 1024, "text/plain").unwrap();
    assert_eq!(chunks.len(), 1);
    assert_eq!(chunks[0].index, 0);
    assert_eq!(chunks[0].file_type, "text/plain");
    assert_eq!(chunks[0].data.len(), 16);
    assert_eq!(chunks[0].hash, compute_full_hash(chunks[0].data.clone()));
    assert_eq!(decrypt_chunk(&chunks[0], key).unwrap(), Vec::<u8>::new());
}

#[test]
fn empty_content_gives_one_chunk_at_any_chunk_size() {
    let key = sample_key();
    let one = encrypt_chunks(&[], &key, 1, "bin").unwrap();
    let large = encrypt_chunks(&[], &key, usize::MAX, "bin").unwrap();
    assert_eq!(one.len(), 1);
    assert_eq!(large.len(), 1);
    assert_eq!(one[0].data, large[0].data);
    assert_eq!(one[0].hash, large[0].hash);
}

#[test]
fn empty_chunk_is_the_tag_of_nothing() {
    let key = vec![0u8; 32];
    let chunks = encrypt_chunks(&[], &key, 1024, "bin").unwrap();
    assert_eq!(chunks.len(), 1);
    assert_eq!(chunks[0].data, from_hex("530f8afbc74536b9a963b4f1c4cb738b"));
}

#[test]
fn content_of_exactly_one_chunk_size() {
    let key = sample_key();
    let content = sample_content(1024);
    let chunks = encrypt_chunks(&content, &key, 1024, "text/plain").unwrap();
    assert_eq!(chunks.len(), 1);
    assert_eq!(decrypt_chunk(&chunks[0], key).unwrap(), content);
}

#[test]
fn content_one_byte_over_a_chunk_size() {
    let key = sample_key();
    let content = sample_content(1025);
    let chunks = encrypt_chunks(&content, &key, 1024, "text/plain").unwrap();
    assert_eq!(chunks.len(), 2);
    assert_eq!(chunks[1].data.len(), 1 + 16);
    assert_eq!(decrypt_chunk(&chunks[1], key).unwrap(), vec![content[1024]]);
}

#[test]
fn chunk_size_larger_than_content() {
    let key = sample_key();
    let content = sample_content(10);
    let chunks = encrypt_chunks(&content, &key, usize::MAX, "text/plain").unwrap();
    assert_eq!(chunks.len(), 1);
    assert_eq!(decrypt_chunk(&chunks[0], key).unwrap(), content);
}

#[test]
fn chunk_size_of_one_byte() {
    let key = sample_key();
    let content = sample_content(5);
    let chunks = encrypt_chunks(&content, &key, 1, "text/plain").unwrap();
    assert_eq!(chunks.len(), 5);
    for (i, chunk) in chunks.iter().enumerate() {
        assert_eq!(chunk.index, i);
        assert_eq!(decrypt_chunk(chunk, key.clone()).unwrap(), vec![content[i]]);
    }
}

#[test]
fn encrypting_with_a_short_key_fails() {
    let content = sample_content(100);
    let r = encrypt_chunks(&content, &[0u8; 31], 50, "text/plain");
    assert_eq!(r.unwrap_err(), ChunkError::InvalidKeyLength);
    let r = encrypt_chunks(&content, &[0u8; 16], 50, "text/plain");
    assert_eq!(r.unwrap_err(), ChunkError::InvalidKeyLength);
    let r = encrypt_chunks(&content, &[], 50, "text/plain");
    assert_eq!(r.unwrap_err(), ChunkError::InvalidKeyLength);
}

#[test]
fn encrypting_with_a_long_key_fails() {
    let content = sample_content(100);
    let r = encrypt_chunks(&content, &[0u8; 33], 50, "text/plain");
    assert_eq!(r.unwrap_err(), ChunkError::InvalidKeyLength);
}

#[test]
fn key_length_is_checked_even_for_empty_content() {
    let r = encrypt_chunks(&[], &[0u8; 5], 1024, "text/plain");
    assert_eq!(r.unwrap_err(), ChunkError::InvalidKeyLength);
}

#[test]
fn decrypting_with_a_key_of_wrong_length_fails() {
    let key = sample_key();
    let chunks = encrypt_chunks(&sample_content(100), &key, 50, "text/plain").unwrap();
    let r = decrypt_chunk(&chunks[0], vec![0u8; 31]);
    assert_eq!(r.unwrap_err(), ChunkError::InvalidKeyLength);
    let r = decrypt_chunk(&chunks[0], vec![0u8; 33]);
    assert_eq!(r.unwrap_err(), ChunkError::InvalidKeyLength);
    let r = decrypt_chunk(&chunks[0], Vec::new());
    assert_eq!(r.unwrap_err(), ChunkError::InvalidKeyLength);
}

#[test]
fn decrypting_with_a_different_key_fails() {
    let chunks = encrypt_chunks(&sample_content(100), &sample_key(), 50, "text/plain").unwrap();
    for chunk in &chunks {
        let r = decrypt_chunk(chunk, other_key());
        assert_eq!(r.unwrap_err(), ChunkError::DecryptionFailure);
    }
}

#[test]
fn flipping_any_bit_of_the_data_is_detected() {
    let key = sample_key();
    let chunks = encrypt_chunks(&sample_content(40), &key, 40, "text/plain").unwrap();
    let chunk = &chunks[0];
    assert_eq!(chunk.data.len(), 56);
    for byte in 0..chunk.data.len() {
        for bit in 0..8 {
            let mut tampered: Chunk = chunk.clone();
            tampered.data[byte] ^= 1 << bit;
            let r = decrypt_chunk(&tampered, key.clone());
            assert_eq!(r.unwrap_err(), ChunkError::DecryptionFailure);
        }
    }
}

#[test]
fn truncated_or_extended_data_is_detected() {
    let key = sample_key();
    let chunks = encrypt_chunks(&sample_content(40), &key, 40, "text/plain").unwrap();
    let mut shorter = chunks[0].clone();
    shorter.data.pop();
    assert_eq!(decrypt_chunk(&shorter, key.clone()).unwrap_err(), ChunkError::DecryptionFailure);
    let mut longer = chunks[0].clone();
    longer.data.push(0);
    assert_eq!(decrypt_chunk(&longer, key.clone()).unwrap_err(), ChunkError::DecryptionFailure);
}

#[test]
fn data_shorter_than_a_tag_is_refused() {
    let key = sample_key();
    for len in 0..16usize {
        let chunk = create_chunk(Vec::new(), vec![0xabu8; len], 0, String::from("bin"));
        let r = decrypt_chunk(&chunk, key.clone());
        assert_eq!(r.unwrap_err(), ChunkError::DecryptionFailure);
    }
}

#[test]
fn what_opens_is_what_sealing_gives() {
    let key = sample_key();
    let content = sample_content(77);
    let chunks = encrypt_chunks(&content, &key, 77, "text/plain").unwrap();
    let plain = decrypt_chunk(&chunks[0], key.clone()).unwrap();
    let resealed = encrypt_chunks(&plain, &key, plain.len(), "text/plain").unwrap();
    assert_eq!(resealed.len(), 1);
    assert_eq!(resealed[0].data, chunks[0].data);
    assert_eq!(resealed[0].hash, chunks[0].hash);
}

#[test]
fn swapping_the_data_of_two_chunks_swaps_their_plaintexts() {
    // every chunk is sealed alike, so a chunk's data open wherever they are put
    let key = sample_key();
    let content = sample_content(200);
    let chunks = encrypt_chunks(&content, &key, 100, "text/plain").unwrap();
    let mut first = chunks[0].clone();
    first.data = chunks[1].data.clone();
    assert_eq!(decrypt_chunk(&first, key).unwrap(), content[100..200].to_vec());
}

#[test]
fn stored_hash_is_not_verified_on_decryption() {
    let key = sample_key();
    let content = sample_content(40);
    let chunks = encrypt_chunks(&content, &key, 40, "text/plain").unwrap();
    let mut chunk = chunks[0].clone();
    chunk.hash = vec![0u8; 32];
    chunk.index = 99;
    chunk.file_type = String::from("other");
    assert_eq!(decrypt_chunk(&chunk, key).unwrap(), content);
}

#[test]
fn equal_pieces_seal_to_equal_bytes() {
    // one nonce for every chunk: the same piece always gives the same bytes
    let key = sample_key();
    let content = vec![0x5au8; 300];
    let chunks = encrypt_chunks(&content, &key, 100, "text/plain").unwrap();
    assert_eq!(chunks.len(), 3);
    assert_eq!(chunks[0].data, chunks[1].data);
    assert_eq!(chunks[1].data, chunks[2].data);
    assert_eq!(chunks[0].hash, chunks[2].hash);
    let again = encrypt_chunks(&content, &key, 100, "text/plain").unwrap();
    assert_eq!(again[0].data, chunks[0].data);
}

#[test]
fn different_keys_seal_to_different_bytes() {
    let content = sample_content(100);
    let a = encrypt_chunks(&content, &sample_key(), 100, "text/plain").unwrap();
    let b = encrypt_chunks(&content, &other_key(), 100, "text/plain").unwrap();
    assert_ne!(a[0].data, b[0].data);
}

#[test]
fn chunk_encrypt_sizes_chunks_by_the_recorded_file_size() {
    let key = sample_key();
    let content = sample_content(500_000);
    let ip = asset(content.clone());
    let chunks = chunk_encrypt(&ip, key.clone(), 4).unwrap();
    assert_eq!(compute_chunk_size(500_000, 4), 62_500);
    assert_eq!(chunks.len(), 8);
    let mut joined: Vec<u8> = Vec::new();
    for (i, chunk) in chunks.iter().enumerate() {
        assert_eq!(chunk.index, i);
        assert_eq!(chunk.file_type, "text/plain");
        assert_eq!(chunk.data.len(), 62_500 + 16);
        assert_eq!(chunk.hash, compute_full_hash(chunk.data.clone()));
        joined.extend(decrypt_chunk(chunk, key.clone()).unwrap());
    }
    assert_eq!(joined, content);
}

#[test]
fn chunk_encrypt_agrees_with_encrypt_chunks() {
    let key = sample_key();
    let content = sample_content(5000);
    let ip = asset(content.clone());
    let via_asset = chunk_encrypt(&ip, key.clone(), 3).unwrap();
    let chunk_size = compute_chunk_size(5000, 3);
    assert_eq!(chunk_size, 1667);
    let direct = encrypt_chunks(&content, &key, chunk_size, "text/plain").unwrap();
    assert_eq!(via_asset.len(), 3);
    assert_eq!(direct.len(), 3);
    for (a, b) in via_asset.iter().zip(&direct) {
        assert_eq!(a.hash, b.hash);
        assert_eq!(a.data, b.data);
        assert_eq!(a.index, b.index);
        assert_eq!(a.file_type, b.file_type);
    }
}

#[test]
fn chunk_encrypt_goes_by_metadata_even_when_it_has_drifted() {
    let key = sample_key();
    let mut ip = asset(sample_content(3000));
    // the record claims 300000 bytes in 100 chunks: ceil(300000 / 100) = 3000
    ip.metadata.file_size = 300_000;
    let chunks = chunk_encrypt(&ip, key.clone(), 100).unwrap();
    assert_eq!(chunks.len(), 1);
    assert_eq!(decrypt_chunk(&chunks[0], key).unwrap(), ip.content);
}

#[test]
fn chunk_encrypt_takes_any_recorded_file_size() {
    let key = sample_key();
    let mut ip = asset(sample_content(3000));
    ip.metadata.file_size = u64::MAX;
    let chunks = chunk_encrypt(&ip, key.clone(), 1).unwrap();
    assert_eq!(chunks.len(), 1);
    assert_eq!(decrypt_chunk(&chunks[0], key.clone()).unwrap(), ip.content);
    // a record that claims no content at all: the floor of 1024 bytes applies
    ip.metadata.file_size = 0;
    let chunks = chunk_encrypt(&ip, key.clone(), 1).unwrap();
    assert_eq!(chunks.len(), 3);
    assert_eq!(chunks[0].data.len(), 1024 + 16);
    assert_eq!(chunks[2].data.len(), 3000 - 2048 + 16);
}

#[test]
fn chunk_encrypt_leaves_the_asset_as_it_was() {
    let ip = asset(sample_content(3000));
    let chunks = chunk_encrypt(&ip, sample_key(), 2).unwrap();
    assert_eq!(chunks.len(), 2);
    assert_eq!(ip.metadata.chunk_count, 0);
    assert_eq!(ip.metadata.file_size, 3000);
    assert_eq!(ip.content, sample_content(3000));
}

#[test]
fn chunk_encrypt_of_an_empty_asset() {
    let key = sample_key();
    let ip = asset(Vec::new());
    for min_chunks in [1usize, 2, 5, 100, 1000] {
        let chunks = chunk_encrypt(&ip, key.clone(), min_chunks).unwrap();
        assert_eq!(chunks.len(), 1);
        assert_eq!(chunks[0].index, 0);
        assert_eq!(chunks[0].file_type, "text/plain");
        assert_eq!(chunks[0].data.len(), 16);
        assert_eq!(chunks[0].hash.len(), 32);
        assert_eq!(decrypt_chunk(&chunks[0], key.clone()).unwrap(), Vec::<u8>::new());
    }
}

#[test]
fn two_equal_pieces_of_an_asset_seal_alike() {
    let key = vec![1u8; 32];
    let ip = create_intellectual_property(
        vec![7u8; 2048],
        String::from("t"),
        Vec::new(),
        false,
        0,
        Vec::new(),
        String::from("t"),
    );
    let chunks = chunk_encrypt(&ip, key, 2).unwrap();
    assert_eq!(chunks.len(), 2);
    assert_eq!(chunks[0].index, 0);
    assert_eq!(chunks[1].index, 1);
    assert_eq!(chunks[0].data, chunks[1].data);
    assert_eq!(chunks[0].hash, chunks[1].hash);
    assert_eq!(chunks[0].data.len(), 1040);
}

#[test]
fn sealed_lengths_of_a_three_chunk_asset() {
    let key = vec![1u8; 32];
    let content: Vec<u8> = (0..3000).map(|i| (i % 251) as u8).collect();
    let ip = create_intellectual_property(
        content,
        String::from("t"),
        Vec::new(),
        false,
        0,
        Vec::new(),
        String::from("t"),
    );
    let chunks = chunk_encrypt(&ip, key, 3).unwrap();
    assert_eq!(chunks.len(), 3);
    let lengths: Vec<usize> = chunks.iter().map(|c| c.data.len()).collect();
    assert_eq!(lengths, vec![1040, 1040, 968]);
    let indices: Vec<usize> = chunks.iter().map(|c| c.index).collect();
    assert_eq!(indices, vec![0, 1, 2]);
    for chunk in &chunks {
        assert_eq!(chunk.hash.len(), 32);
    }
}

#[test]
fn sealed_lengths_add_up() {
    let key = sample_key();
    for len in [1usize, 999, 1000, 1001, 2500, 4096] {
        let content = sample_content(len);
        let chunks = encrypt_chunks(&content, &key, 1000, "text/plain").unwrap();
        let total: usize = chunks.iter().map(|c| c.data.len()).sum();
        assert_eq!(total, len + 16 * chunks.len());
        for (i, chunk) in chunks.iter().enumerate() {
            assert_eq!(chunk.data.len(), 1000.min(len - i * 1000) + 16);
        }
    }
}

#[test]
fn chunk_encrypt_with_a_bad_key() {
    let ip = asset(sample_content(3000));
    let r = chunk_encrypt(&ip, vec![1, 2, 3], 2);
    assert_eq!(r.unwrap_err(), ChunkError::InvalidKeyLength);
    let empty = asset(Vec::new());
    let r = chunk_encrypt(&empty, vec![0u8; 64], 2);
    assert_eq!(r.unwrap_err(), ChunkError::InvalidKeyLength);
}

#[test]
fn error_kinds_are_distinct() {
    let kinds = [
        ChunkError::InvalidKeyLength,
        ChunkError::EncryptionFailure,
        ChunkError::DecryptionFailure,
        ChunkError::MalformedInput,
    ];
    for (i, a) in kinds.iter().enumerate() {
        for (j, b) in kinds.iter().enumerate() {
            assert_eq!(a == b, i == j);
        }
    }
    assert_eq!(format!("{:?}", ChunkError::MalformedInput), "MalformedInput");
}
