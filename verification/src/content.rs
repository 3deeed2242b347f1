//! Classification of a file's bytes as binary or text.

use vstd::prelude::*;

verus! {

/// Number of leading bytes of a file that are inspected for a zero byte.
pub const BINARY_FILE_CHECK_SIZE: usize = 8192;

/// Whether `bytes` holds a zero byte among its first `limit` bytes.
pub open spec fn has_nul_within(bytes: Seq<u8>, limit: int) -> bool {
    exists|i: int| 0 <= i < bytes.len() && i < limit && bytes[i] == 0u8
}

/// Tells whether a file of `length` bytes can be decoded.
pub fn can_decode(length: usize) -> (can: bool)
    ensures
        can == decodable(length as nat),
{
    length <= (isize::MAX as usize - 6) / 6
}

/// Tells whether a file with this content counts as binary: a zero byte
/// occurs within its first `BINARY_FILE_CHECK_SIZE` bytes.
pub fn looks_binary(bytes: &[u8]) -> (binary: bool)
    ensures
        binary == has_nul_within(bytes@, BINARY_FILE_CHECK_SIZE as int),
{
    let n: usize = if bytes.len() < BINARY_FILE_CHECK_SIZE {
        bytes.len()
    } else {
        BINARY_FILE_CHECK_SIZE
    };
    let mut i: usize = 0;
    while i < n
        invariant
            i <= n,
            n <= bytes.len(),
            n <= BINARY_FILE_CHECK_SIZE,
            n == bytes.len() || n == BINARY_FILE_CHECK_SIZE,
            forall|j: int| 0 <= j < i ==> bytes@[j] != 0u8,
        decreases n - i,
    {
        if bytes[i] == 0 {
            return true;
        }
        i += 1;
    }
    false
}

/// The text that the bytes of a file stand for: its UTF-8 reading, with a
/// leading byte-order mark dropped and every malformed sequence replaced by
/// U+FFFD.
pub uninterp spec fn decoded_text(bytes: Seq<u8>) -> Seq<char>;

/// Whether a file of this many bytes can be decoded: the decoder sets
/// aside up to three bytes of output for each byte of input, once at the
/// start and once more where replacements outgrow the first estimate, and
/// a `String` holds no more than `isize::MAX` bytes.
pub open spec fn decodable(length: nat) -> bool {
    6 * length + 6 <= isize::MAX
}

/// Decodes with `encoding_rs::Encoding::decode_with_bom_removal` on `UTF_8`.
/// The result is a function of the bytes alone, named `decoded_text`. The
/// call panics where its buffer sizes overflow, which `decodable` rules out.
#[verifier::external_body]
fn decode_text(bytes: &[u8]) -> (text: String)
    requires
        decodable(bytes@.len()),
    ensures
        text@ == decoded_text(bytes@),
{
    encoding_rs::UTF_8.decode_with_bom_removal(bytes).0.into_owned()
}

/// What a file holds: decoded text, or nothing that is kept of a binary file.
#[derive(Debug, PartialEq, Eq)]
pub enum FileType {
    Text(String),
    Binary,
}

impl FileType {
    /// The text of a text file; `None` for a binary file.
    pub open spec fn text(&self) -> Option<Seq<char>> {
        match self {
            FileType::Text(content) => Some(content@),
            FileType::Binary => None,
        }
    }
}

/// The classification of a file with the given bytes.
pub open spec fn classification(bytes: Seq<u8>) -> Option<Seq<char>> {
    if has_nul_within(bytes, BINARY_FILE_CHECK_SIZE as int) {
        None
    } else {
        Some(decoded_text(bytes))
    }
}

/// Classifies the content of one file. A zero byte within the first
/// `BINARY_FILE_CHECK_SIZE` bytes makes it binary and nothing is decoded;
/// otherwise all of it is decoded as text in one pass.
pub fn read_file_contents(bytes: &[u8]) -> (kind: FileType)
    requires
        decodable(bytes@.len()),
    ensures
        kind.text() == classification(bytes@),
{
    if looks_binary(bytes) {
        FileType::Binary
    } else {
        FileType::Text(decode_text(bytes))
    }
}

/// The bytes of a file that are inspected: the first
/// `BINARY_FILE_CHECK_SIZE`, or all of a shorter file.
pub open spec fn inspected_prefix(bytes: Seq<u8>) -> Seq<u8> {
    if bytes.len() <= BINARY_FILE_CHECK_SIZE {
        bytes
    } else {
        bytes.take(BINARY_FILE_CHECK_SIZE as int)
    }
}

/// A zero byte counts exactly where it lies within the inspected bytes.
pub proof fn lemma_nul_lies_in_prefix(bytes: Seq<u8>)
    ensures
        has_nul_within(bytes, BINARY_FILE_CHECK_SIZE as int) == inspected_prefix(bytes).contains(
            0u8,
        ),
{
    let limit = BINARY_FILE_CHECK_SIZE as int;
    let prefix = inspected_prefix(bytes);
    if has_nul_within(bytes, limit) {
        let i = choose|i: int| 0 <= i < bytes.len() && i < limit && bytes[i] == 0u8;
        assert(prefix[i] == 0u8);
    }
    if prefix.contains(0u8) {
        let i = choose|i: int| 0 <= i < prefix.len() && prefix[i] == 0u8;
        assert(bytes[i] == 0u8);
    }
}

/// Classification looks at the inspected bytes only: two files that agree
/// on them are both binary or both text, whatever follows.
pub proof fn lemma_classification_reads_prefix_only(first: Seq<u8>, second: Seq<u8>)
    requires
        inspected_prefix(first) == inspected_prefix(second),
    ensures
        (classification(first) is None) == (classification(second) is None),
{
    lemma_nul_lies_in_prefix(first);
    lemma_nul_lies_in_prefix(second);
}

/// A file without a zero byte among its first `BINARY_FILE_CHECK_SIZE`
/// bytes is text, even where a zero byte follows later.
pub proof fn lemma_late_nul_is_text(bytes: Seq<u8>)
    requires
        forall|i: int| 0 <= i < bytes.len() && i < BINARY_FILE_CHECK_SIZE ==> bytes[i] != 0u8,
    ensures
        classification(bytes) == Some(decoded_text(bytes)),
{
}

} // verus!
