//! Content-derived identity of a measurement record.
//!
//! A measurement is identified by the MD5 digest of its content, written
//! as 32 hexadecimal characters. The digest may be computed here, from the
//! bytes of the content, or where the content is produced; either way the
//! store treats the text of the digest as the only identity the record
//! has.

use vstd::prelude::*;
use vstd::string::{is_ascii_spec_bytes, StringExecFns};

verus! {

/// The number of hexadecimal characters in a content hash.
pub const CONTENT_HASH_LEN: usize = 32;

/// `c` is one of `0-9`, `a-f`, `A-F`.
pub open spec fn is_hex_digit(c: char) -> bool {
    ('0' <= c && c <= '9') || ('a' <= c && c <= 'f') || ('A' <= c && c <= 'F')
}

/// `text` has the shape of a content hash: exactly 32 hexadecimal characters.
pub open spec fn is_content_hash(text: Seq<char>) -> bool {
    &&& text.len() == 32
    &&& forall|i: int| 0 <= i < text.len() ==> is_hex_digit(#[trigger] text[i])
}

/// A content hash that has been checked for its shape.
#[derive(Debug, PartialEq, Eq)]
pub struct ContentHash {
    text: String,
}

impl View for ContentHash {
    type V = Seq<char>;

    closed spec fn view(&self) -> Seq<char> {
        self.text@
    }
}

/// The MD5 digest of a sequence of bytes: 16 bytes.
pub uninterp spec fn md5_digest(content: Seq<u8>) -> Seq<u8>;

/// The lower-case hexadecimal digit of a value below 16.
pub open spec fn hex_digit(n: int) -> char {
    if n == 0 {
        '0'
    } else if n == 1 {
        '1'
    } else if n == 2 {
        '2'
    } else if n == 3 {
        '3'
    } else if n == 4 {
        '4'
    } else if n == 5 {
        '5'
    } else if n == 6 {
        '6'
    } else if n == 7 {
        '7'
    } else if n == 8 {
        '8'
    } else if n == 9 {
        '9'
    } else if n == 10 {
        'a'
    } else if n == 11 {
        'b'
    } else if n == 12 {
        'c'
    } else if n == 13 {
        'd'
    } else if n == 14 {
        'e'
    } else {
        'f'
    }
}

/// Bytes written in hexadecimal: two lower-case digits for each byte, the
/// high half first.
pub open spec fn hex_text(bytes: Seq<u8>) -> Seq<char> {
    Seq::new(
        2 * bytes.len(),
        |i: int|
            hex_digit(
                if i % 2 == 0 {
                    bytes[i / 2] as int / 16
                } else {
                    bytes[i / 2] as int % 16
                },
            ),
    )
}

/// Calls `md5::compute`, which runs MD5 over the bytes it is given and
/// returns the 16 bytes of the digest. The digest depends on the bytes
/// alone; the contract gives it its name and claims nothing else.
#[verifier::external_body]
fn md5_of(content: &[u8]) -> (digest: [u8; 16])
    ensures
        digest@ == md5_digest(content@),
{
    md5::compute(content).0
}

fn digit_text(n: u8) -> (text: &'static str)
    requires
        n < 16,
    ensures
        text@ == seq![hex_digit(n as int)],
        is_hex_digit(hex_digit(n as int)),
{
    proof {
        reveal_strlit("0");
        reveal_strlit("1");
        reveal_strlit("2");
        reveal_strlit("3");
        reveal_strlit("4");
        reveal_strlit("5");
        reveal_strlit("6");
        reveal_strlit("7");
        reveal_strlit("8");
        reveal_strlit("9");
        reveal_strlit("a");
        reveal_strlit("b");
        reveal_strlit("c");
        reveal_strlit("d");
        reveal_strlit("e");
        reveal_strlit("f");
    }
    let text = match n {
        0 => "0",
        1 => "1",
        2 => "2",
        3 => "3",
        4 => "4",
        5 => "5",
        6 => "6",
        7 => "7",
        8 => "8",
        9 => "9",
        10 => "a",
        11 => "b",
        12 => "c",
        13 => "d",
        14 => "e",
        _ => "f",
    };
    assert(text@ =~= seq![hex_digit(n as int)]);
    text
}

fn is_hex_byte(b: u8) -> (r: bool)
    ensures
        r == ((0x30 <= b && b <= 0x39) || (0x61 <= b && b <= 0x66) || (0x41 <= b && b <= 0x46)),
{
    (b >= 0x30 && b <= 0x39) || (b >= 0x61 && b <= 0x66) || (b >= 0x41 && b <= 0x46)
}

impl ContentHash {
    #[verifier::type_invariant]
    spec fn well_shaped(self) -> bool {
        is_content_hash(self.text@)
    }

    /// Accepts `text` as a content hash when it has the shape of one.
    pub fn parse(text: &str) -> (r: Option<ContentHash>)
        ensures
            r is Some <==> is_content_hash(text@),
            r is Some ==> r->Some_0@ == text@,
    {
        if !text.is_ascii() {
            return None;
        }
        let bytes = text.as_bytes();
        proof {
            is_ascii_spec_bytes(text);
        }
        if bytes.len() != CONTENT_HASH_LEN {
            return None;
        }
        let mut i: usize = 0;
        while i < CONTENT_HASH_LEN
            invariant
                i <= 32,
                bytes@.len() == 32,
                text@.len() == 32,
                text.is_ascii(),
                forall|j: int| 0 <= j < 32 ==> bytes@[j] == (#[trigger] text@[j]) as u8,
                forall|j: int| 0 <= j < i ==> is_hex_digit(#[trigger] text@[j]),
            decreases 32 - i,
        {
            if !is_hex_byte(bytes[i]) {
                assert(!is_hex_digit(text@[i as int]));
                return None;
            }
            assert(is_hex_digit(text@[i as int]));
            i += 1;
        }
        Some(ContentHash { text: text.to_owned() })
    }

    /// The content hash that a digest stands for: the digest in lower-case
    /// hexadecimal.
    pub fn from_digest(digest: &[u8; 16]) -> (r: ContentHash)
        ensures
            r@ == hex_text(digest@),
    {
        let mut text = String::new();
        let mut i: usize = 0;
        while i < 16
            invariant
                i <= 16,
                digest@.len() == 16,
                text@.len() == 2 * i,
                forall|j: int| 0 <= j < 2 * i ==> text@[j] == #[trigger] hex_text(digest@)[j],
                forall|j: int| 0 <= j < 2 * i ==> is_hex_digit(#[trigger] text@[j]),
            decreases 16 - i,
        {
            let byte = digest[i];
            let ghost before = text@;
            text.append(digit_text(byte / 16));
            text.append(digit_text(byte % 16));
            assert(text@ =~= before + seq![hex_digit(byte as int / 16)] + seq![
                hex_digit(byte as int % 16),
            ]);
            assert forall|j: int| 0 <= j < 2 * (i + 1) implies text@[j] == #[trigger] hex_text(
                digest@,
            )[j] && is_hex_digit(text@[j]) by {
                if j < 2 * i {
                    assert(text@[j] == before[j]);
                } else if j == 2 * i {
                    assert(j / 2 == i && j % 2 == 0);
                } else {
                    assert(j / 2 == i && j % 2 == 1);
                }
            }
            i += 1;
        }
        assert(text@ =~= hex_text(digest@));
        ContentHash { text }
    }

    /// The content hash of a sequence of bytes: its MD5 digest in lower-case
    /// hexadecimal. Equal content has equal hashes.
    pub fn of(content: &[u8]) -> (r: ContentHash)
        ensures
            r@ == hex_text(md5_digest(content@)),
    {
        let digest = md5_of(content);
        ContentHash::from_digest(&digest)
    }

    /// The hash as text.
    pub fn as_str(&self) -> (r: &str)
        ensures
            r@ == self@,
            is_content_hash(r@),
    {
        proof {
            use_type_invariant(self);
        }
        self.text.as_str()
    }

    /// Whether two hashes name the same record.
    pub fn same_as(&self, other: &ContentHash) -> (r: bool)
        ensures
            r == (self@ == other@),
    {
        self.text == other.text
    }
}

impl Clone for ContentHash {
    fn clone(&self) -> (r: ContentHash)
        ensures
            r@ == self@,
    {
        proof {
            use_type_invariant(self);
        }
        ContentHash { text: self.text.clone() }
    }
}

} // verus!
