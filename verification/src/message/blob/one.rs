//! BLOB elements and their base64 transport encoding.
use vstd::prelude::*;


verus! {

/// The character of the standard base64 alphabet (RFC 4648) for a 6-bit value.
pub open spec fn base64_char(v: int) -> char {
    if v < 26 {
        (65 + v) as char
    } else if v < 52 {
        (97 + v - 26) as char
    } else if v < 62 {
        (48 + v - 52) as char
    } else if v == 62 {
        '+'
    } else {
        '/'
    }
}

/// The standard base64 encoding with padding (RFC 4648, section 4): each
/// group of three bytes becomes four characters; a final group of one or two
/// bytes is padded with `=`.
pub open spec fn base64_text(d: Seq<u8>) -> Seq<char>
    decreases d.len(),
{
    if d.len() == 0 {
        Seq::empty()
    } else if d.len() == 1 {
        let a = d[0] as int;
        seq![base64_char(a / 4), base64_char((a % 4) * 16), '=', '=']
    } else if d.len() == 2 {
        let a = d[0] as int;
        let b = d[1] as int;
        seq![base64_char(a / 4), base64_char((a % 4) * 16 + b / 16), base64_char((b % 16) * 4), '=']
    } else {
        let a = d[0] as int;
        let b = d[1] as int;
        let c = d[2] as int;
        seq![
            base64_char(a / 4),
            base64_char((a % 4) * 16 + b / 16),
            base64_char((b % 16) * 4 + c / 64),
            base64_char(c % 64),
        ] + base64_text(d.skip(3))
    }
}

/// Encodes bytes with `base64::engine::general_purpose::STANDARD.encode`,
/// which writes the standard alphabet with padding. The crate panics when the
/// encoded length overflows `usize`; the bound on the input, which every
/// `Vec<u8>` meets (no allocation exceeds `isize::MAX` bytes), rules that out.
#[verifier::external_body]
fn base64_encode(data: &[u8]) -> (r: String)
    requires
        data@.len() <= isize::MAX,
    ensures
        r@ == base64_text(data@),
{
    base64::Engine::encode(&base64::engine::general_purpose::STANDARD, data)
}

/// The error of the base64 crate's decoder.
#[verifier::external_type_specification]
#[verifier::external_body]
pub struct ExDecodeError(base64::DecodeError);

/// Decodes text with `base64::engine::general_purpose::STANDARD.decode`. The
/// engine requires canonical padding and rejects non-zero trailing bits, so
/// it accepts exactly the encodings of byte sequences and returns the bytes
/// encoded. Which error it reports for other texts is left unsaid.
#[verifier::external_body]
fn base64_decode(text: &str) -> (r: core::result::Result<Vec<u8>, base64::DecodeError>)
    ensures
        match r {
            Ok(d) => base64_text(d@) == text@,
            Err(_) => forall|d: Seq<u8>| base64_text(d) != text@,
        },
{
    base64::Engine::decode(&base64::engine::general_purpose::STANDARD, text)
}

/// One BLOB element that can be used in both setBLOBVector and newBLOBVector
#[derive(Debug, Clone, PartialEq)]
pub struct OneBLOB {
    /// BLOB name
    pub name: String,
    /// BLOB size
    pub size: usize,
    /// BLOB format as a file suffix (e.g., ".fits", ".z", ".fits.z")
    pub format: String,
    /// BLOB data encoded in base64
    pub data: String,
}

impl OneBLOB {
    /// Create a new BLOB element: the size is the number of raw bytes and the
    /// data is their base64 encoding.
    pub fn new(name: String, format: String, data: Vec<u8>) -> (r: Self)
        requires
            data@.len() <= isize::MAX,
        ensures
            r.name == name,
            r.format == format,
            r.size == data@.len(),
            r.data@ == base64_text(data@),
    {
        let encoded = base64_encode(data.as_slice());
        OneBLOB { name, size: data.len(), format, data: encoded }
    }

    /// Get the decoded BLOB data: the bytes whose encoding the data is, or
    /// the decoder's error when it is not an encoding.
    pub fn get_data(&self) -> (r: core::result::Result<Vec<u8>, base64::DecodeError>)
        ensures
            match r {
                Ok(d) => base64_text(d@) == self.data@,
                Err(_) => forall|d: Seq<u8>| base64_text(d) != self.data@,
            },
    {
        base64_decode(self.data.as_str())
    }
}

/// The encoding is one-to-one on the data it is given: an element's data
/// decodes to exactly the bytes it was made from.
pub proof fn lemma_blob_roundtrip(b: OneBLOB, data: Seq<u8>, decoded: Seq<u8>)
    requires
        b.data@ == base64_text(data),
        base64_text(decoded) == b.data@,
    ensures
        decoded == data,
{
    lemma_base64_injective(decoded, data);
}

proof fn lemma_base64_char_injective(a: int, b: int)
    requires
        0 <= a < 64,
        0 <= b < 64,
        base64_char(a) == base64_char(b),
    ensures
        a == b,
{
}

/// Different byte sequences have different encodings.
pub proof fn lemma_base64_injective(a: Seq<u8>, b: Seq<u8>)
    requires
        base64_text(a) == base64_text(b),
    ensures
        a == b,
    decreases a.len(),
{
    let ta = base64_text(a);
    let tb = base64_text(b);
    lemma_base64_len(a);
    lemma_base64_len(b);
    if a.len() == 0 {
        if b.len() != 0 {
            assert(tb.len() > 0);
        }
        assert(a =~= b);
    } else {
        assert(b.len() > 0) by {
            if b.len() == 0 {
                assert(tb.len() == 0);
            }
        }
        // The first four characters fix the group sizes and the first bytes.
        assert(ta[0] == tb[0]);
        assert(ta[1] == tb[1]);
        assert(ta[2] == tb[2]);
        assert(ta[3] == tb[3]);
        lemma_base64_char_injective(a[0] as int / 4, b[0] as int / 4);
        if a.len() == 1 {
            assert(b.len() == 1) by {
                if b.len() >= 2 {
                    assert(tb[2] != '=');
                }
            }
            lemma_base64_char_injective((a[0] as int % 4) * 16, (b[0] as int % 4) * 16);
            assert(a[0] == b[0]);
            assert(a =~= b);
        } else if a.len() == 2 {
            assert(b.len() == 2) by {
                if b.len() == 1 {
                    assert(ta[2] != '=');
                } else if b.len() >= 3 {
                    assert(tb[3] != '=');
                }
            }
            lemma_base64_char_injective(
                (a[0] as int % 4) * 16 + a[1] as int / 16,
                (b[0] as int % 4) * 16 + b[1] as int / 16,
            );
            lemma_base64_char_injective((a[1] as int % 16) * 4, (b[1] as int % 16) * 4);
            assert(a[0] == b[0]);
            assert(a[1] == b[1]);
            assert(a =~= b);
        } else {
            assert(b.len() >= 3) by {
                if b.len() <= 2 {
                    assert(ta[3] != '=');
                }
            }
            lemma_base64_char_injective(
                (a[0] as int % 4) * 16 + a[1] as int / 16,
                (b[0] as int % 4) * 16 + b[1] as int / 16,
            );
            lemma_base64_char_injective(
                (a[1] as int % 16) * 4 + a[2] as int / 64,
                (b[1] as int % 16) * 4 + b[2] as int / 64,
            );
            lemma_base64_char_injective(a[2] as int % 64, b[2] as int % 64);
            assert(a[0] == b[0]);
            assert(a[1] == b[1]);
            assert(a[2] == b[2]);
            assert(base64_text(a.skip(3)) =~= ta.skip(4));
            assert(base64_text(b.skip(3)) =~= tb.skip(4));
            lemma_base64_injective(a.skip(3), b.skip(3));
            assert(a =~= seq![a[0], a[1], a[2]] + a.skip(3));
            assert(b =~= seq![b[0], b[1], b[2]] + b.skip(3));
        }
    }
}

proof fn lemma_base64_len(d: Seq<u8>)
    ensures
        d.len() == 0 <==> base64_text(d).len() == 0,
        d.len() > 0 ==> base64_text(d).len() >= 4,
    decreases d.len(),
{
    if d.len() >= 3 {
        lemma_base64_len(d.skip(3));
    }
}

} // verus!
