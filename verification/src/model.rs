//! The records that carry an asset and its chunks through the pipeline.
//!
//! Records are plain data. Nothing here re-validates a stored value: whoever
//! changes an asset's content afterwards is responsible for its metadata.

use vstd::prelude::*;

verus! {

/// Descriptive fields of an asset.
#[derive(Clone, Debug)]
pub struct Metadata {
    /// Label of the kind of content.
    pub content_type: String,
    /// Free-form tags, in the order given, duplicates kept.
    pub tags: Vec<String>,
    /// Version label.
    pub version: String,
    /// Number of chunks; zero on creation, and left untouched by chunking.
    pub chunk_count: usize,
    /// Length of the content in bytes, as of creation.
    pub file_size: u64,
    /// Type of the file that the content came from, copied onto every chunk.
    pub file_type: String,
}

/// An asset: content, metadata and commercial fields.
#[derive(Clone, Debug)]
pub struct IntellectualProperty {
    /// The plaintext payload.
    pub content: Vec<u8>,
    /// Descriptive fields.
    pub metadata: Metadata,
    /// Premium flag.
    pub is_premium: bool,
    /// Price in whole units.
    pub price_dct: u64,
    /// Identity of the creator.
    pub creator_id: Vec<u8>,
}

/// One sealed piece of an asset's content.
#[derive(Clone, Debug)]
pub struct Chunk {
    /// Digest of `data`: the address of the sealed bytes, not of the plaintext.
    pub hash: Vec<u8>,
    /// The sealed piece: ciphertext followed by the authentication tag.
    pub data: Vec<u8>,
    /// Zero-based position of the piece in the content.
    pub index: usize,
    /// Type of the file that the content came from.
    pub file_type: String,
}

/// Mathematical value of a `Metadata`.
pub struct MetadataView {
    pub content_type: Seq<char>,
    pub tags: Seq<Seq<char>>,
    pub version: Seq<char>,
    pub chunk_count: nat,
    pub file_size: nat,
    pub file_type: Seq<char>,
}

/// Mathematical value of an `IntellectualProperty`.
pub struct IntellectualPropertyView {
    pub content: Seq<u8>,
    pub metadata: MetadataView,
    pub is_premium: bool,
    pub price_dct: nat,
    pub creator_id: Seq<u8>,
}

/// Mathematical value of a `Chunk`.
pub struct ChunkView {
    pub hash: Seq<u8>,
    pub data: Seq<u8>,
    pub index: nat,
    pub file_type: Seq<char>,
}

/// The tags as sequences of characters, order and duplicates kept.
pub open spec fn tags_view(tags: Seq<String>) -> Seq<Seq<char>> {
    Seq::new(tags.len(), |i: int| tags[i]@)
}

/// The version label of a newly created asset.
pub open spec fn default_version() -> Seq<char> {
    "1.0.0"@
}

impl View for Metadata {
    type V = MetadataView;

    open spec fn view(&self) -> MetadataView {
        MetadataView {
            content_type: self.content_type@,
            tags: tags_view(self.tags@),
            version: self.version@,
            chunk_count: self.chunk_count as nat,
            file_size: self.file_size as nat,
            file_type: self.file_type@,
        }
    }
}

impl View for IntellectualProperty {
    type V = IntellectualPropertyView;

    open spec fn view(&self) -> IntellectualPropertyView {
        IntellectualPropertyView {
            content: self.content@,
            metadata: self.metadata@,
            is_premium: self.is_premium,
            price_dct: self.price_dct as nat,
            creator_id: self.creator_id@,
        }
    }
}

impl View for Chunk {
    type V = ChunkView;

    open spec fn view(&self) -> ChunkView {
        ChunkView {
            hash: self.hash@,
            data: self.data@,
            index: self.index as nat,
            file_type: self.file_type@,
        }
    }
}

/// Builds a metadata record from the fields given. No chunk is counted yet.
pub fn create_metadata(
    content_type: String,
    tags: Vec<String>,
    version: String,
    file_size: u64,
    file_type: String,
) -> (metadata: Metadata)
    ensures
        metadata@ == (MetadataView {
            content_type: content_type@,
            tags: tags_view(tags@),
            version: version@,
            chunk_count: 0,
            file_size: file_size as nat,
            file_type: file_type@,
        }),
{
    Metadata { content_type, tags, version, chunk_count: 0, file_size, file_type }
}

/// Builds an asset from its content and descriptive fields. The metadata
/// gets the default version, no chunk counted, and the content's length as
/// file size.
pub fn create_intellectual_property(
    content: Vec<u8>,
    content_type: String,
    tags: Vec<String>,
    is_premium: bool,
    price_dct: u64,
    creator_id: Vec<u8>,
    file_type: String,
) -> (ip: IntellectualProperty)
    ensures
        ip@ == (IntellectualPropertyView {
            content: content@,
            metadata: MetadataView {
                content_type: content_type@,
                tags: tags_view(tags@),
                version: default_version(),
                chunk_count: 0,
                file_size: content@.len(),
                file_type: file_type@,
            },
            is_premium,
            price_dct: price_dct as nat,
            creator_id: creator_id@,
        }),
{
    let file_size: u64 = content.len() as u64;
    let metadata = create_metadata(content_type, tags, "1.0.0".to_owned(), file_size, file_type);
    IntellectualProperty { content, metadata, is_premium, price_dct, creator_id }
}

/// Builds a chunk record from its fields.
pub fn create_chunk(hash: Vec<u8>, data: Vec<u8>, index: usize, file_type: String) -> (chunk:
    Chunk)
    ensures
        chunk@ == (ChunkView {
            hash: hash@,
            data: data@,
            index: index as nat,
            file_type: file_type@,
        }),
{
    Chunk { hash, data, index, file_type }
}

/// The content of an asset.
pub fn get_ip_content(ip: &IntellectualProperty) -> (content: &Vec<u8>)
    ensures
        content@ == ip@.content,
{
    &ip.content
}

/// The metadata of an asset.
pub fn get_ip_metadata(ip: &IntellectualProperty) -> (metadata: &Metadata)
    ensures
        metadata@ == ip@.metadata,
{
    &ip.metadata
}

/// The premium flag of an asset.
pub fn get_ip_is_premium(ip: &IntellectualProperty) -> (is_premium: bool)
    ensures
        is_premium == ip@.is_premium,
{
    ip.is_premium
}

/// The price of an asset.
pub fn get_ip_price_dct(ip: &IntellectualProperty) -> (price_dct: u64)
    ensures
        price_dct == ip@.price_dct,
{
    ip.price_dct
}

/// The creator's identity of an asset.
pub fn get_ip_creator_id(ip: &IntellectualProperty) -> (creator_id: &Vec<u8>)
    ensures
        creator_id@ == ip@.creator_id,
{
    &ip.creator_id
}

/// The file size that an asset's metadata records.
pub fn get_ip_file_size(ip: &IntellectualProperty) -> (file_size: u64)
    ensures
        file_size == ip@.metadata.file_size,
{
    ip.metadata.file_size
}

/// The file type that an asset's metadata records.
pub fn get_ip_file_type(ip: &IntellectualProperty) -> (file_type: &String)
    ensures
        file_type@ == ip@.metadata.file_type,
{
    &ip.metadata.file_type
}

/// The digest of a chunk's sealed bytes.
pub fn get_chunk_hash(chunk: &Chunk) -> (hash: &Vec<u8>)
    ensures
        hash@ == chunk@.hash,
{
    &chunk.hash
}

/// The sealed bytes of a chunk.
pub fn get_chunk_data(chunk: &Chunk) -> (data: &Vec<u8>)
    ensures
        data@ == chunk@.data,
{
    &chunk.data
}

/// The position of a chunk in its content.
pub fn get_chunk_index(chunk: &Chunk) -> (index: usize)
    ensures
        index == chunk@.index,
{
    chunk.index
}

/// The file type of a chunk.
pub fn get_chunk_file_type(chunk: &Chunk) -> (file_type: &String)
    ensures
        file_type@ == chunk@.file_type,
{
    &chunk.file_type
}

} // verus!
