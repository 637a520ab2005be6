//! Where the reader's place in a document is kept, and what is kept of it.
use md5::{Digest, Md5};
use vstd::prelude::*;
use vstd::string::StringExecFns;

verus! {

/// The reader's place in a document. The font size is a single-precision encoding.
#[derive(Debug)]
pub struct SavedState {
    pub page: usize,
    pub rotation: u16,
    pub inverted: bool,
    pub auto_crop: bool,
    pub tinted: bool,
    pub epub_font_size: Option<u32>,
}

impl Default for SavedState {
    fn default() -> (state: Self)
        ensures
            state == (SavedState {
                page: 0,
                rotation: 0,
                inverted: false,
                auto_crop: false,
                tinted: false,
                epub_font_size: None,
            }),
    {
        SavedState {
            page: 0,
            rotation: 0,
            inverted: false,
            auto_crop: false,
            tinted: false,
            epub_font_size: None,
        }
    }
}

/// The MD5 digest of a message.
pub uninterp spec fn md5_digest(message: Seq<u8>) -> Seq<u8>;

/// `md5::Md5::digest`: the MD5 digest of the message, 16 bytes that depend on nothing
/// but the message.
#[verifier::external_body]
fn digest_of(message: &[u8]) -> (digest: Vec<u8>)
    ensures
        digest@ == md5_digest(message@),
        digest@.len() == 16,
{
    Md5::digest(message).to_vec()
}

/// The hexadecimal digit of a number below sixteen.
pub open spec fn hex_digit(value: int) -> char {
    if value < 10 {
        (value + 0x30) as char
    } else {
        (value + 0x57) as char
    }
}

/// Two hexadecimal digits for each byte.
pub open spec fn hex(bytes: Seq<u8>) -> Seq<char> {
    Seq::new(
        2 * bytes.len(),
        |i: int|
            hex_digit(
                if i % 2 == 0 {
                    bytes[i / 2] as int / 16
                } else {
                    bytes[i / 2] as int % 16
                },
            ),
    )
}

fn hex_char(value: u8) -> (character: char)
    requires
        value < 16,
    ensures
        character == hex_digit(value as int),
{
    if value < 10 {
        (value + 0x30) as char
    } else {
        (value + 0x57) as char
    }
}

/// The name of the file for a document whose path has the given digest.
pub fn state_file_name(digest: &Vec<u8>) -> (name: String)
    ensures
        name@ == hex(digest@) + ".json"@,
{
    let mut name = String::new();
    let mut index: usize = 0;
    while index < digest.len()
        invariant
            index <= digest@.len(),
            name@ == hex(digest@.take(index as int)),
        decreases digest@.len() - index,
    {
        let byte: u8 = digest[index];
        name.push(hex_char(byte / 16));
        name.push(hex_char(byte % 16));
        proof {
            assert(name@ =~= hex(digest@.take(index + 1)));
        }
        index = index + 1;
    }
    proof {
        assert(digest@.take(digest@.len() as int) =~= digest@);
    }
    name.append(".json");
    name
}

/// Where the place in a document is kept, below the directory for such files: a file
/// named after the digest of the document's path.
pub fn state_path(file_path: &str) -> (name: String)
    ensures
        name@ == hex(md5_digest(vstd::utf8::encode_utf8(file_path@))) + ".json"@,
        name@.len() == 37,
{
    let digest: Vec<u8> = digest_of(file_path.as_bytes());
    proof {
        reveal_strlit(".json");
    }
    state_file_name(&digest)
}

/// Two documents share a file only if the digests of their paths are the same.
pub proof fn names_differ_as_digests_do(a: Seq<u8>, b: Seq<u8>)
    ensures
        (hex(a) + ".json"@ == hex(b) + ".json"@) <==> a == b,
{
    if hex(a) + ".json"@ == hex(b) + ".json"@ {
        let tail = ".json"@;
        assert((hex(a) + tail).len() == (hex(b) + tail).len());
        assert(a.len() == b.len());
        assert forall|i: int| 0 <= i < a.len() implies a[i] == b[i] by {
            assert((hex(a) + tail)[2 * i] == hex(a)[2 * i]);
            assert((hex(b) + tail)[2 * i] == hex(b)[2 * i]);
            assert((hex(a) + tail)[2 * i + 1] == hex(a)[2 * i + 1]);
            assert((hex(b) + tail)[2 * i + 1] == hex(b)[2 * i + 1]);
            hex_digit_is_injective(a[i] as int / 16, b[i] as int / 16);
            hex_digit_is_injective(a[i] as int % 16, b[i] as int % 16);
        }
        assert(a =~= b);
    }
}

proof fn hex_digit_is_injective(a: int, b: int)
    requires
        0 <= a < 16,
        0 <= b < 16,
        hex_digit(a) == hex_digit(b),
    ensures
        a == b,
{
}

/// Each byte is written as two hexadecimal digits, the higher one first, that give it back:
/// digits from zero to nine and lower-case letters from a to f.
pub proof fn digits_give_the_bytes_back(bytes: Seq<u8>, index: int)
    requires
        0 <= index < bytes.len(),
    ensures
        hex(bytes).len() == 2 * bytes.len(),
        ({
            let high = hex(bytes)[2 * index];
            let low = hex(bytes)[2 * index + 1];
            let value = |digit: char|
                if '0' <= digit <= '9' {
                    digit as int - '0' as int
                } else {
                    digit as int - 'a' as int + 10
                };
            &&& '0' <= high <= '9' || 'a' <= high <= 'f'
            &&& '0' <= low <= '9' || 'a' <= low <= 'f'
            &&& bytes[index] == 16 * value(high) + value(low)
        }),
{
    let byte = bytes[index] as int;
    assert((2 * index) / 2 == index && (2 * index + 1) / 2 == index);
    assert((2 * index) % 2 == 0 && (2 * index + 1) % 2 == 1);
    assert(byte == 16 * (byte / 16) + byte % 16);
    assert(0 <= byte / 16 < 16);
}

} // verus!
