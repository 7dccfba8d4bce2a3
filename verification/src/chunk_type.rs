//! The four-byte tag that names a chunk's kind.

use vstd::prelude::*;
use crate::error::PngError;

verus! {

/// A chunk's type tag: four bytes, by convention ASCII letters.
///
/// Any four bytes make a `ChunkType`. Whether they are letters is what
/// [`ChunkType::is_valid`] tells; the case of each letter carries one
/// property of the chunk.
#[derive(Debug, Clone, Copy, PartialEq, Eq)]
pub struct ChunkType {
    pub bytes: [u8; 4],
}

impl View for ChunkType {
    type V = Seq<u8>;

    open spec fn view(&self) -> Seq<u8> {
        self.bytes@
    }
}

/// `b` is an ASCII letter, upper or lower case.
pub open spec fn is_letter(b: u8) -> bool {
    (0x41 <= b <= 0x5a) || (0x61 <= b <= 0x7a)
}

/// Bit 5 of `b` is clear. Of an ASCII letter this says that it is upper case.
pub open spec fn is_upper_bit(b: u8) -> bool {
    b & 0x20 == 0
}

/// The tag `tag` is made of four ASCII letters.
pub open spec fn is_tag(tag: Seq<u8>) -> bool {
    &&& tag.len() == 4
    &&& forall|i: int| 0 <= i < 4 ==> is_letter(#[trigger] tag[i])
}

/// The text that stands for the tag `tag`: one character for each byte.
pub open spec fn text_of_tag(tag: Seq<u8>) -> Seq<char> {
    Seq::new(tag.len(), |i: int| tag[i] as char)
}

/// The bytes that the text `text` stands for, where all of it is ASCII.
pub open spec fn tag_of_text(text: Seq<char>) -> Seq<u8> {
    Seq::new(text.len(), |i: int| text[i] as u8)
}

/// `c` is an ASCII letter, upper or lower case.
pub open spec fn is_letter_char(c: char) -> bool {
    ('A' <= c <= 'Z') || ('a' <= c <= 'z')
}

/// The text `text` names a chunk type: four characters, each an ASCII letter.
pub open spec fn is_tag_text(text: Seq<char>) -> bool {
    &&& text.len() == 4
    &&& forall|i: int| 0 <= i < 4 ==> is_letter_char(#[trigger] text[i])
}

/// Of an ASCII letter, bit 5 is clear exactly when the letter is upper case.
pub proof fn lemma_upper_bit_of_letter(b: u8)
    requires
        is_letter(b),
    ensures
        is_upper_bit(b) <==> 0x41 <= b <= 0x5a,
{
    assert(is_letter(b) ==> (b & 0x20 == 0 <==> 0x41 <= b <= 0x5a)) by (bit_vector);
}

/// The text of a tag that was read from four letters is those four letters.
pub proof fn lemma_text_of_parsed_tag(text: Seq<char>)
    requires
        is_tag_text(text),
    ensures
        is_tag(tag_of_text(text)),
        text_of_tag(tag_of_text(text)) == text,
{
    assert forall|i: int| 0 <= i < 4 implies #[trigger] text_of_tag(tag_of_text(text))[i]
        == text[i] by {
        assert(is_letter_char(text[i]));
    }
    assert forall|i: int| 0 <= i < 4 implies is_letter(#[trigger] tag_of_text(text)[i]) by {
        assert(is_letter_char(text[i]));
    }
}

impl std::str::FromStr for ChunkType {
    type Err = PngError;

    /// Reads a chunk type from its text. The text must be four ASCII
    /// letters; any other text is refused as `InvalidChunkType`.
    fn from_str(s: &str) -> (r: Result<ChunkType, PngError>)
        ensures
            match r {
                Ok(t) => is_tag_text(s@) && t@ == tag_of_text(s@),
                Err(e) => !is_tag_text(s@) && e == PngError::InvalidChunkType,
            },
    {
        if !s.is_ascii() {
            assert(!is_tag_text(s@)) by {
                if is_tag_text(s@) {
                    assert forall|i: int| 0 <= i < s@.len() implies '\0' <= #[trigger] s@[i]
                        <= '\u{7f}' by {
                        assert(is_letter_char(s@[i]));
                    }
                }
            }
            return Err(PngError::InvalidChunkType);
        }
        let raw = s.as_bytes();
        proof {
            vstd::string::is_ascii_spec_bytes(s);
        }
        if raw.len() != 4 {
            return Err(PngError::InvalidChunkType);
        }
        let bytes: [u8; 4] = [raw[0], raw[1], raw[2], raw[3]];
        let t = ChunkType { bytes };
        if t.is_valid() {
            Ok(t)
        } else {
            Err(PngError::InvalidChunkType)
        }
    }
}

fn is_letter_byte(b: u8) -> (r: bool)
    ensures
        r == is_letter(b),
{
    (0x41 <= b && b <= 0x5a) || (0x61 <= b && b <= 0x7a)
}

impl ChunkType {
    /// The chunk type made of the four bytes `bytes`, whatever they are.
    pub fn from_bytes(bytes: [u8; 4]) -> (t: ChunkType)
        ensures
            t.bytes == bytes,
    {
        ChunkType { bytes }
    }

    /// The four bytes of the tag.
    pub fn bytes(&self) -> (b: [u8; 4])
        ensures
            b == self.bytes,
    {
        self.bytes
    }

    /// Whether all four bytes are ASCII letters.
    pub fn is_valid(&self) -> (r: bool)
        ensures
            r == is_tag(self@),
    {
        is_letter_byte(self.bytes[0]) && is_letter_byte(self.bytes[1]) && is_letter_byte(
            self.bytes[2],
        ) && is_letter_byte(self.bytes[3])
    }

    /// Whether the chunk is critical: the first byte is upper case.
    pub fn is_critical(&self) -> (r: bool)
        ensures
            r == is_upper_bit(self@[0]),
    {
        self.bytes[0] & 0x20 == 0
    }

    /// Whether the chunk is public: the second byte is upper case.
    pub fn is_public(&self) -> (r: bool)
        ensures
            r == is_upper_bit(self@[1]),
    {
        self.bytes[1] & 0x20 == 0
    }

    /// Whether the reserved bit is as it must be: the third byte is upper
    /// case.
    pub fn is_reserved_bit_valid(&self) -> (r: bool)
        ensures
            r == is_upper_bit(self@[2]),
    {
        self.bytes[2] & 0x20 == 0
    }

    /// Whether the chunk is safe to copy: the fourth byte is lower case.
    pub fn is_safe_to_copy(&self) -> (r: bool)
        ensures
            r == !is_upper_bit(self@[3]),
    {
        self.bytes[3] & 0x20 != 0
    }

    /// The tag as text: one character for each byte.
    pub fn to_string(&self) -> (s: String)
        ensures
            s@ == text_of_tag(self@),
    {
        let mut s = String::new();
        s.push(self.bytes[0] as char);
        s.push(self.bytes[1] as char);
        s.push(self.bytes[2] as char);
        s.push(self.bytes[3] as char);
        s
    }
}

} // verus!
