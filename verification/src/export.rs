use vstd::prelude::*;

verus! {

/// How an image is written to a file.
#[derive(Clone, Copy, Debug, PartialEq, Eq, Structural)]
pub enum SaveEncoder {
    /// The JPEG encoder at the given quality.
    Jpeg { quality: u8 },
    /// The encoder that the image crate picks from the file's extension.
    ByExtension,
}

/// ASCII lower case of a byte.
pub open spec fn ascii_lower(b: u8) -> u8 {
    if 65 <= b <= 90 {
        (b + 32) as u8
    } else {
        b
    }
}

/// `ext` equals the lower-case ASCII word `word`, ignoring ASCII case.
pub open spec fn same_word_ignoring_case(ext: Seq<u8>, word: Seq<u8>) -> bool {
    &&& ext.len() == word.len()
    &&& forall|i: int| 0 <= i < ext.len() ==> ascii_lower(#[trigger] ext[i]) == word[i]
}

/// The bytes of "jpg".
pub open spec fn jpg_word() -> Seq<u8> {
    seq![106u8, 112u8, 103u8]
}

/// The bytes of "jpeg".
pub open spec fn jpeg_word() -> Seq<u8> {
    seq![106u8, 112u8, 101u8, 103u8]
}

fn matches_word(ext: &[u8], word: &[u8]) -> (b: bool)
    requires
        forall|i: int| 0 <= i < word@.len() ==> ascii_lower(#[trigger] word@[i]) == word@[i],
    ensures
        b == same_word_ignoring_case(ext@, word@),
{
    if ext.len() != word.len() {
        return false;
    }
    let mut i: usize = 0;
    while i < ext.len()
        invariant
            ext@.len() == word@.len(),
            i <= ext@.len(),
            forall|j: int| 0 <= j < i ==> ascii_lower(#[trigger] ext@[j]) == word@[j],
        decreases ext@.len() - i,
    {
        let b = ext[i];
        let lower = if 65 <= b && b <= 90 {
            b + 32
        } else {
            b
        };
        if lower != word[i] {
            return false;
        }
        i = i + 1;
    }
    true
}

/// The encoder for a file with extension `ext` (the bytes after the last
/// dot of the file name): JPEG at quality 92 for "jpg" and "jpeg" in any
/// case, otherwise the one the image crate picks.
pub fn encoder_for_extension(ext: &[u8]) -> (e: SaveEncoder)
    ensures
        e == (if same_word_ignoring_case(ext@, jpg_word()) || same_word_ignoring_case(
            ext@,
            jpeg_word(),
        ) {
            SaveEncoder::Jpeg { quality: 92 }
        } else {
            SaveEncoder::ByExtension
        }),
{
    let jpg: [u8; 3] = [106, 112, 103];
    let jpeg: [u8; 4] = [106, 112, 101, 103];
    assert(jpg@ =~= jpg_word());
    assert(jpeg@ =~= jpeg_word());
    if matches_word(ext, jpg.as_slice()) || matches_word(ext, jpeg.as_slice()) {
        SaveEncoder::Jpeg { quality: 92 }
    } else {
        SaveEncoder::ByExtension
    }
}

} // verus!
