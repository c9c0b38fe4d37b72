//! Sealing the pieces of a content into chunks, and opening a chunk again.
//!
//! Every chunk is sealed under `chunk_nonce()`, the same twelve zero bytes
//! for every chunk of every asset. Reusing a nonce under one key breaks
//! AES-GCM; the format is kept for compatibility, not because it is safe.

use crate::cipher::{
    aead_open, aead_seal, aes256_gcm_open, aes256_gcm_seal, KEY_LEN, MAX_PLAINTEXT_LEN, NONCE_LEN,
    TAG_LEN,
};
use crate::digest::{sha256, sha256_of, DIGEST_LEN};
use crate::error::ChunkError;
use crate::model::{create_chunk, Chunk, ChunkView, IntellectualProperty};
use crate::sizing::{
    chunk_count, chunk_size_for, compute_chunk_size, lemma_ceil_div_least,
    lemma_chunk_size_bounds, MAX_CHUNKS, MIN_CHUNK_SIZE,
};
use crate::split::{
    chunk_range, chunk_ranges, lemma_chunk_range_len, lemma_chunk_start, lemma_ranges_reassemble,
    lemma_single_chunk,
};
use vstd::prelude::*;
use vstd::slice::slice_subrange;

verus! {

/// The nonce of every chunk: `NONCE_LEN` zero bytes.
pub open spec fn chunk_nonce() -> Seq<u8> {
    Seq::new(NONCE_LEN as nat, |i: int| 0u8)
}

/// The `i`-th chunk of `content`: its `i`-th piece sealed under `key`, the
/// digest of the sealed bytes, the index and the file type.
pub open spec fn sealed_chunk(
    content: Seq<u8>,
    key: Seq<u8>,
    chunk_size: int,
    file_type: Seq<char>,
    i: int,
) -> ChunkView {
    let data = aes256_gcm_seal(key, chunk_nonce(), chunk_range(content, chunk_size, i));
    ChunkView { hash: sha256(data), data, index: i as nat, file_type }
}

/// The one chunk of an empty content: nothing, sealed under `key`.
pub open spec fn empty_chunk(key: Seq<u8>, file_type: Seq<char>) -> ChunkView {
    let data = aes256_gcm_seal(key, chunk_nonce(), Seq::empty());
    ChunkView { hash: sha256(data), data, index: 0, file_type }
}

/// All chunks of `content`, in index order.
pub open spec fn sealed_chunks(
    content: Seq<u8>,
    key: Seq<u8>,
    chunk_size: int,
    file_type: Seq<char>,
) -> Seq<ChunkView>
    recommends
        chunk_size > 0,
{
    Seq::new(
        chunk_count(content.len() as int, chunk_size) as nat,
        |i: int| sealed_chunk(content, key, chunk_size, file_type, i),
    )
}

/// Length of the longest piece of a content of `len` bytes: the first.
pub open spec fn longest_range(len: int, chunk_size: int) -> int {
    if len < chunk_size {
        len
    } else {
        chunk_size
    }
}

/// What encrypting `content` in chunks gives: all its chunks, or the one
/// error that applies. A key of the wrong length is reported before anything
/// else; the cipher refuses a piece exactly when it is longer than
/// `MAX_PLAINTEXT_LEN`, and then no chunk is returned.
pub open spec fn encryption_of(
    content: Seq<u8>,
    key: Seq<u8>,
    chunk_size: int,
    file_type: Seq<char>,
) -> Result<Seq<ChunkView>, ChunkError>
    recommends
        chunk_size > 0,
{
    if key.len() != KEY_LEN {
        Err(ChunkError::InvalidKeyLength)
    } else if longest_range(content.len() as int, chunk_size) > MAX_PLAINTEXT_LEN {
        Err(ChunkError::EncryptionFailure)
    } else {
        Ok(sealed_chunks(content, key, chunk_size, file_type))
    }
}

/// What decrypting sealed bytes gives: the plaintext that the cipher opens
/// them to, or the one error that applies.
pub open spec fn decryption_of(key: Seq<u8>, data: Seq<u8>) -> Result<Seq<u8>, ChunkError> {
    if key.len() != KEY_LEN {
        Err(ChunkError::InvalidKeyLength)
    } else {
        match aes256_gcm_open(key, chunk_nonce(), data) {
            Some(plain) => Ok(plain),
            None => Err(ChunkError::DecryptionFailure),
        }
    }
}

/// Whether `opened` can be what `decrypt_chunk` returns for `data` under
/// `key`:
/// - it is `decryption_of(key, data)`;
/// - a plaintext is `TAG_LEN` bytes shorter than the data, and the data are
///   the very bytes that sealing that plaintext under `key` gives;
/// - data that sealing some plaintext under `key` gives open to that
///   plaintext.
///
/// The last two speak of plaintexts of at most `MAX_PLAINTEXT_LEN` bytes,
/// which are all that can be sealed.
pub open spec fn decrypts_to(key: Seq<u8>, data: Seq<u8>, opened: Result<Seq<u8>, ChunkError>)
    -> bool {
    &&& opened == decryption_of(key, data)
    &&& opened matches Ok(plain) ==> plain.len() + TAG_LEN == data.len() && (plain.len()
        <= MAX_PLAINTEXT_LEN ==> data == aes256_gcm_seal(key, chunk_nonce(), plain))
    &&& key.len() == KEY_LEN ==> forall|plaintext: Seq<u8>|
        plaintext.len() <= MAX_PLAINTEXT_LEN && #[trigger] aes256_gcm_seal(
            key,
            chunk_nonce(),
            plaintext,
        ) == data ==> opened == Ok::<Seq<u8>, ChunkError>(plaintext)
}

/// The chunks of a result as mathematical values.
pub open spec fn chunks_view(r: Result<Vec<Chunk>, ChunkError>) -> Result<
    Seq<ChunkView>,
    ChunkError,
> {
    match r {
        Ok(chunks) => Ok(Seq::new(chunks@.len(), |i: int| chunks@[i]@)),
        Err(e) => Err(e),
    }
}

/// The plaintext of a result as a mathematical value.
pub open spec fn plain_view(r: Result<Vec<u8>, ChunkError>) -> Result<Seq<u8>, ChunkError> {
    match r {
        Ok(plain) => Ok(plain@),
        Err(e) => Err(e),
    }
}

/// Decryption inverts encryption: where `content` was encrypted in chunks
/// under `key`, whatever `decrypt_chunk` returns for the `i`-th chunk under
/// the same key is the `i`-th piece of `content`.
pub proof fn lemma_decrypt_inverts_encrypt(
    content: Seq<u8>,
    key: Seq<u8>,
    chunk_size: int,
    file_type: Seq<char>,
    i: int,
    opened: Result<Seq<u8>, ChunkError>,
)
    requires
        chunk_size > 0,
        encryption_of(content, key, chunk_size, file_type) matches Ok(chunks) && 0 <= i
            < chunks.len() && decrypts_to(key, chunks[i].data, opened),
    ensures
        opened == Ok::<Seq<u8>, ChunkError>(chunk_range(content, chunk_size, i)),
{
    lemma_chunk_range_len(content, chunk_size, i);
}

/// Only sealed data open. Under a key of the right length, data of a length
/// that sealing can give are opened exactly when they are what sealing some
/// plaintext under that key gives, and then to that plaintext; everything
/// else is refused as a `DecryptionFailure`. So data that were altered after
/// sealing are refused, unless they are bit for bit what the key seals
/// another plaintext to.
pub proof fn lemma_only_sealed_data_open(
    key: Seq<u8>,
    data: Seq<u8>,
    opened: Result<Seq<u8>, ChunkError>,
)
    requires
        key.len() == KEY_LEN,
        data.len() <= MAX_PLAINTEXT_LEN + TAG_LEN,
        decrypts_to(key, data, opened),
    ensures
        match opened {
            Ok(plain) => data == aes256_gcm_seal(key, chunk_nonce(), plain),
            Err(e) => e == ChunkError::DecryptionFailure && forall|plaintext: Seq<u8>|
                plaintext.len() <= MAX_PLAINTEXT_LEN ==> #[trigger] aes256_gcm_seal(
                    key,
                    chunk_nonce(),
                    plaintext,
                ) != data,
        },
{
}

/// Tamper evidence. Where the data that `plaintext` was sealed to have been
/// altered, decryption under the same key fails with `DecryptionFailure`;
/// the one way for it not to fail is that the altered data are bit for bit
/// what the key seals another plaintext to, which is then what comes back.
/// The plaintext that was sealed never comes back from altered data.
pub proof fn lemma_altered_data_are_refused_or_forged(
    key: Seq<u8>,
    plaintext: Seq<u8>,
    altered: Seq<u8>,
    opened: Result<Seq<u8>, ChunkError>,
)
    requires
        key.len() == KEY_LEN,
        plaintext.len() <= MAX_PLAINTEXT_LEN,
        altered != aes256_gcm_seal(key, chunk_nonce(), plaintext),
        altered.len() <= MAX_PLAINTEXT_LEN + TAG_LEN,
        decrypts_to(key, altered, opened),
    ensures
        opened == Err::<Seq<u8>, ChunkError>(ChunkError::DecryptionFailure) || (opened matches Ok(
            other,
        ) && other != plaintext && altered == aes256_gcm_seal(key, chunk_nonce(), other)),
{
}

/// Another key. Where data that `key` sealed a plaintext to are decrypted
/// under `other_key`, decryption fails with `DecryptionFailure`; the one way
/// for it not to fail is that the data are bit for bit what `other_key`
/// seals some plaintext to, which is then what comes back.
pub proof fn lemma_other_key_refuses_or_seals_alike(
    key: Seq<u8>,
    other_key: Seq<u8>,
    plaintext: Seq<u8>,
    opened: Result<Seq<u8>, ChunkError>,
)
    requires
        other_key.len() == KEY_LEN,
        plaintext.len() <= MAX_PLAINTEXT_LEN,
        aes256_gcm_seal(key, chunk_nonce(), plaintext).len() <= MAX_PLAINTEXT_LEN + TAG_LEN,
        decrypts_to(other_key, aes256_gcm_seal(key, chunk_nonce(), plaintext), opened),
    ensures
        opened == Err::<Seq<u8>, ChunkError>(ChunkError::DecryptionFailure) || (opened matches Ok(
            other,
        ) && aes256_gcm_seal(key, chunk_nonce(), plaintext) == aes256_gcm_seal(
            other_key,
            chunk_nonce(),
            other,
        )),
{
}

/// Where `content` was encrypted in chunks under `key` and every chunk is
/// decrypted under the same key, every decryption succeeds, and the
/// plaintexts joined in index order are `content`.
pub proof fn lemma_decrypted_chunks_reassemble(
    content: Seq<u8>,
    key: Seq<u8>,
    chunk_size: int,
    file_type: Seq<char>,
    opened: Seq<Result<Seq<u8>, ChunkError>>,
)
    requires
        chunk_size > 0,
        encryption_of(content, key, chunk_size, file_type) matches Ok(chunks) && opened.len()
            == chunks.len() && forall|i: int|
            0 <= i < chunks.len() ==> decrypts_to(key, chunks[i].data, #[trigger] opened[i]),
    ensures
        forall|i: int| 0 <= i < opened.len() ==> (#[trigger] opened[i]) is Ok,
        Seq::new(opened.len(), |i: int| opened[i].unwrap()).flatten() == content,
{
    assert forall|i: int| 0 <= i < opened.len() implies #[trigger] opened[i] == Ok::<
        Seq<u8>,
        ChunkError,
    >(chunk_range(content, chunk_size, i)) by {
        lemma_decrypt_inverts_encrypt(content, key, chunk_size, file_type, i, opened[i]);
    }
    assert(Seq::new(opened.len(), |i: int| opened[i].unwrap()) == chunk_ranges(
        content,
        chunk_size,
    ));
    lemma_ranges_reassemble(content, chunk_size);
}

/// An empty content is encrypted, under a key of the right length and with
/// whatever chunk size, into exactly one chunk: the empty chunk.
pub proof fn lemma_empty_content_gives_one_chunk(
    content: Seq<u8>,
    key: Seq<u8>,
    chunk_size: int,
    file_type: Seq<char>,
)
    requires
        content.len() == 0,
        key.len() == KEY_LEN,
        chunk_size > 0,
    ensures
        encryption_of(content, key, chunk_size, file_type) == Ok::<Seq<ChunkView>, ChunkError>(
            seq![empty_chunk(key, file_type)],
        ),
{
    assert(chunk_range(content, chunk_size, 0) =~= Seq::<u8>::empty());
    assert(sealed_chunks(content, key, chunk_size, file_type) =~= seq![
        empty_chunk(key, file_type),
    ]);
}

/// An asset whose recorded file size is the length of its content, as it is
/// on creation, is encrypted into at least one and at most `MAX_CHUNKS`
/// chunks. An empty content gives exactly one chunk. Any other gives at
/// least `min_chunks` chunks (or `MAX_CHUNKS`, if that is less) exactly when
/// it is large enough to put something into that many chunks of
/// `MIN_CHUNK_SIZE` bytes.
pub proof fn lemma_asset_chunk_count(
    content: Seq<u8>,
    key: Seq<u8>,
    min_chunks: int,
    file_type: Seq<char>,
)
    requires
        min_chunks >= 1,
        encryption_of(
            content,
            key,
            chunk_size_for(content.len() as int, min_chunks),
            file_type,
        ) is Ok,
    ensures
        ({
            let chunks = encryption_of(
                content,
                key,
                chunk_size_for(content.len() as int, min_chunks),
                file_type,
            ).unwrap();
            let least = if min_chunks < MAX_CHUNKS {
                min_chunks
            } else {
                MAX_CHUNKS as int
            };
            &&& 1 <= chunks.len() <= MAX_CHUNKS
            &&& content.len() == 0 ==> chunks.len() == 1
            &&& content.len() > 0 ==> (chunks.len() >= least <==> content.len() > MIN_CHUNK_SIZE * (
                least - 1))
        }),
{
    lemma_chunk_size_bounds(content.len() as int, min_chunks);
}

/// Any two chunk sizes that are not below the content's length give the same
/// encryption: the content in one chunk.
pub proof fn lemma_oversized_chunk_sizes_agree(
    content: Seq<u8>,
    key: Seq<u8>,
    chunk_size: int,
    other_size: int,
    file_type: Seq<char>,
)
    requires
        chunk_size > 0,
        other_size > 0,
        chunk_size >= content.len(),
        other_size >= content.len(),
    ensures
        encryption_of(content, key, chunk_size, file_type) == encryption_of(
            content,
            key,
            other_size,
            file_type,
        ),
{
    lemma_single_chunk(content, chunk_size);
    lemma_single_chunk(content, other_size);
    assert(sealed_chunks(content, key, chunk_size, file_type) =~= sealed_chunks(
        content,
        key,
        other_size,
        file_type,
    ));
}

/// Cuts `content` every `chunk_size` bytes and seals each piece under `key`.
/// Returns the chunks in index order, or an error and no chunk at all. An
/// empty content gives one chunk, which seals the empty piece.
pub fn encrypt_chunks(content: &[u8], key: &[u8], chunk_size: usize, file_type: &str) -> (r: Result<
    Vec<Chunk>,
    ChunkError,
>)
    requires
        chunk_size > 0,
    ensures
        chunks_view(r) == encryption_of(content@, key@, chunk_size as int, file_type@),
        r matches Ok(chunks) ==> chunks@.len() == chunk_count(
            content@.len() as int,
            chunk_size as int,
        ) && forall|i: int|
            0 <= i < chunks@.len() ==> (#[trigger] chunks@[i])@ == sealed_chunk(
                content@,
                key@,
                chunk_size as int,
                file_type@,
                i,
            ),
        r matches Ok(chunks) ==> forall|i: int|
            0 <= i < chunks@.len() ==> (#[trigger] chunks@[i])@.data.len() == chunk_range(
                content@,
                chunk_size as int,
                i,
            ).len() + TAG_LEN && chunks@[i]@.hash.len() == DIGEST_LEN,
        content@.len() == 0 && key@.len() == KEY_LEN ==> (r matches Ok(chunks) && chunks@.len()
            == 1 && chunks@[0]@ == empty_chunk(key@, file_type@)),
{
    if key.len() != KEY_LEN {
        return Err(ChunkError::InvalidKeyLength);
    }
    let nonce: [u8; NONCE_LEN] = [0u8; NONCE_LEN];
    let len: usize = content.len();
    let ghost size = chunk_size as int;
    let mut chunks: Vec<Chunk> = Vec::new();
    let mut start: usize = 0;
    assert(0 * size == 0) by (nonlinear_arith);
    // an empty content still goes through once, for its one empty piece
    while start < len || chunks.len() == 0
        invariant
            chunk_size > 0,
            size == chunk_size,
            len == content@.len(),
            key@.len() == KEY_LEN,
            nonce@ == chunk_nonce(),
            start <= len,
            start == if chunks@.len() * size < len {
                chunks@.len() * size
            } else {
                len as int
            },
            chunks@.len() > 1 ==> (chunks@.len() - 1) * size < len,
            chunks@.len() > 0 ==> longest_range(len as int, size) <= MAX_PLAINTEXT_LEN,
            forall|i: int|
                0 <= i < chunks@.len() ==> (#[trigger] chunks@[i])@ == sealed_chunk(
                    content@,
                    key@,
                    size,
                    file_type@,
                    i,
                ),
            forall|i: int|
                0 <= i < chunks@.len() ==> (#[trigger] chunks@[i])@.data.len() == chunk_range(
                    content@,
                    size,
                    i,
                ).len() + TAG_LEN && chunks@[i]@.hash.len() == DIGEST_LEN,
        decreases len - start + (if chunks@.len() == 0 { 1int } else { 0int }),
    {
        let index: usize = chunks.len();
        let end: usize = if len - start > chunk_size {
            start + chunk_size
        } else {
            len
        };
        proof {
            lemma_chunk_start(len as int, size, index as int);
        }
        let piece = slice_subrange(content, start, end);
        assert(piece@ == chunk_range(content@, size, index as int));
        let data = match aead_seal(key, nonce.as_slice(), piece) {
            Ok(Ok(data)) => data,
            Ok(Err(_)) => {
                return Err(ChunkError::EncryptionFailure);
            },
            Err(_) => {
                return Err(ChunkError::InvalidKeyLength);
            },
        };
        let hash = sha256_of(data.as_slice());
        chunks.push(create_chunk(hash, data, index, file_type.to_owned()));
        start = end;
    }
    proof {
        let count = chunks@.len() as int;
        lemma_ceil_div_least(len as int, size, count);
        lemma_ceil_div_least(len as int, size, count - 1);
        assert(chunks_view(Ok(chunks)).unwrap() =~= sealed_chunks(
            content@,
            key@,
            size,
            file_type@,
        ));
        if len == 0 {
            lemma_empty_content_gives_one_chunk(content@, key@, size, file_type@);
            assert(chunks@[0]@ == sealed_chunks(content@, key@, size, file_type@)[0]);
        }
    }
    Ok(chunks)
}

/// Encrypts an asset's content in chunks of the size that its recorded file
/// size and `min_chunks` call for. Every chunk gets the asset's file type.
/// The asset is not changed; in particular its chunk count stays as it was.
///
/// The chunk size goes by the file size that the metadata records, whatever
/// the content's length is by now.
pub fn chunk_encrypt(ip: &IntellectualProperty, key: Vec<u8>, min_chunks: usize) -> (r: Result<
    Vec<Chunk>,
    ChunkError,
>)
    ensures
        chunks_view(r) == encryption_of(
            ip@.content,
            key@,
            chunk_size_for(ip@.metadata.file_size as int, min_chunks as int),
            ip@.metadata.file_type,
        ),
        r matches Ok(chunks) ==> chunks@.len() == chunk_count(
            ip@.content.len() as int,
            chunk_size_for(ip@.metadata.file_size as int, min_chunks as int),
        ) && forall|i: int|
            0 <= i < chunks@.len() ==> (#[trigger] chunks@[i])@ == sealed_chunk(
                ip@.content,
                key@,
                chunk_size_for(ip@.metadata.file_size as int, min_chunks as int),
                ip@.metadata.file_type,
                i,
            ),
        r matches Ok(chunks) ==> forall|i: int|
            0 <= i < chunks@.len() ==> (#[trigger] chunks@[i])@.data.len() == chunk_range(
                ip@.content,
                chunk_size_for(ip@.metadata.file_size as int, min_chunks as int),
                i,
            ).len() + TAG_LEN && chunks@[i]@.hash.len() == DIGEST_LEN,
        ip@.content.len() == 0 && key@.len() == KEY_LEN ==> (r matches Ok(chunks) && chunks@.len()
            == 1 && chunks@[0]@ == empty_chunk(key@, ip@.metadata.file_type)),
{
    let chunk_size: usize = compute_chunk_size(ip.metadata.file_size, min_chunks);
    let r = encrypt_chunks(
        ip.content.as_slice(),
        key.as_slice(),
        chunk_size,
        ip.metadata.file_type.as_str(),
    );
    proof {
        let chosen = chunk_size_for(ip@.metadata.file_size as int, min_chunks as int);
        if chosen > usize::MAX {
            // beyond the largest length every content in memory is one piece
            assert(ip@.content.len() == ip.content.len());
            lemma_oversized_chunk_sizes_agree(
                ip@.content,
                key@,
                chosen,
                chunk_size as int,
                ip@.metadata.file_type,
            );
            lemma_single_chunk(ip@.content, chosen);
            lemma_single_chunk(ip@.content, chunk_size as int);
        }
        if r is Ok {
            let chunks = r->Ok_0;
            let expected = sealed_chunks(ip@.content, key@, chosen, ip@.metadata.file_type);
            assert(chunks_view(r).unwrap().len() == chunks@.len());
            assert forall|i: int| 0 <= i < chunks@.len() implies (#[trigger] chunks@[i])@
                == sealed_chunk(ip@.content, key@, chosen, ip@.metadata.file_type, i) by {
                assert(expected[i] == sealed_chunk(
                    ip@.content,
                    key@,
                    chosen,
                    ip@.metadata.file_type,
                    i,
                ));
            }
        }
    }
    r
}

/// Opens a chunk's data under `key` and returns the plaintext of the piece.
/// The chunk's stored hash is not looked at.
pub fn decrypt_chunk(chunk: &Chunk, key: Vec<u8>) -> (r: Result<Vec<u8>, ChunkError>)
    ensures
        decrypts_to(key@, chunk@.data, plain_view(r)),
{
    let nonce: [u8; NONCE_LEN] = [0u8; NONCE_LEN];
    assert(nonce@ == chunk_nonce());
    let opened = aead_open(key.as_slice(), nonce.as_slice(), chunk.data.as_slice());
    match opened {
        Ok(Ok(plain)) => Ok(plain),
        Ok(Err(_)) => Err(ChunkError::DecryptionFailure),
        Err(_) => Err(ChunkError::InvalidKeyLength),
    }
}

} // verus!
