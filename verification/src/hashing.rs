use vstd::prelude::*;

verus! {

/// The SHA-256 digest (32 raw bytes) of a byte sequence. The digest is a
/// function of the input bytes alone, so it carries a name rather than a
/// restatement of the algorithm.
pub uninterp spec fn sha256_of(bytes: Seq<u8>) -> Seq<u8>;

/// Relies on sha2::Sha256 through digest::Digest::digest: the SHA-256 digest
/// of the input, 32 bytes, depending on the input bytes alone.
#[verifier::external_body]
pub(crate) fn sha256_digest(bytes: &Vec<u8>) -> (r: Vec<u8>)
    ensures
        r@ == sha256_of(bytes@),
        r@.len() == 32,
{
    let digest = <sha2::Sha256 as sha2::Digest>::digest(bytes.as_slice());
    digest.to_vec()
}

/// Each byte read as the character with the same code point; meaningful for
/// ASCII bytes only.
pub open spec fn ascii_chars(bytes: Seq<u8>) -> Seq<char> {
    bytes.map_values(|b: u8| b as char)
}

/// Relies on String::from_utf8: ASCII bytes are valid UTF-8 and decode to the
/// characters with the same code points.
#[verifier::external_body]
fn ascii_bytes_to_string(bytes: Vec<u8>) -> (r: String)
    requires
        forall|i: int| 0 <= i < bytes@.len() ==> bytes@[i] < 128,
    ensures
        r@ == ascii_chars(bytes@),
{
    match String::from_utf8(bytes) {
        Ok(s) => s,
        Err(_) => String::new(),
    }
}

/// The lowercase hexadecimal digit for a value below 16.
pub open spec fn hex_digit(n: u8) -> u8
    recommends
        n < 16,
{
    if n < 10 {
        (48 + n) as u8
    } else {
        (87 + n) as u8
    }
}

/// Lowercase hexadecimal encoding of a byte sequence, two digits per byte,
/// as ASCII bytes.
pub open spec fn hex_bytes_of(bytes: Seq<u8>) -> Seq<u8>
    decreases bytes.len(),
{
    if bytes.len() == 0 {
        Seq::empty()
    } else {
        seq![hex_digit(bytes[0] / 16), hex_digit(bytes[0] % 16)] + hex_bytes_of(
            bytes.drop_first(),
        )
    }
}

/// Lowercase hexadecimal encoding of a byte sequence, as characters.
pub open spec fn hex_of(bytes: Seq<u8>) -> Seq<char> {
    ascii_chars(hex_bytes_of(bytes))
}

/// Whether `c` is a lowercase hexadecimal digit.
pub open spec fn is_hex_char(c: char) -> bool {
    (48 <= c as u32 && c as u32 <= 57) || (97 <= c as u32 && c as u32 <= 102)
}

/// Hexadecimal encoding writes the digits of the last byte after those of the
/// rest.
proof fn lemma_hex_bytes_push(bytes: Seq<u8>, b: u8)
    ensures
        hex_bytes_of(bytes.push(b)) =~= hex_bytes_of(bytes) + seq![
            hex_digit(b / 16),
            hex_digit(b % 16),
        ],
    decreases bytes.len(),
{
    if bytes.len() == 0 {
        assert(bytes.push(b)[0] == b);
        assert(bytes.push(b).drop_first() =~= Seq::<u8>::empty());
        assert(hex_bytes_of(Seq::<u8>::empty()) =~= Seq::<u8>::empty());
    } else {
        assert(bytes.push(b)[0] == bytes[0]);
        assert(bytes.push(b).drop_first() =~= bytes.drop_first().push(b));
        lemma_hex_bytes_push(bytes.drop_first(), b);
        assert(hex_bytes_of(bytes.push(b)) =~= seq![
            hex_digit(bytes[0] / 16),
            hex_digit(bytes[0] % 16),
        ] + (hex_bytes_of(bytes.drop_first()) + seq![hex_digit(b / 16), hex_digit(b % 16)]));
    }
}

/// A hexadecimal encoding is twice as long as its input and holds lowercase
/// hexadecimal digits only.
pub proof fn lemma_hex_bytes_shape(bytes: Seq<u8>)
    ensures
        hex_bytes_of(bytes).len() == 2 * bytes.len(),
        forall|k: int|
            0 <= k < hex_bytes_of(bytes).len() ==> is_hex_char(
                #[trigger] hex_bytes_of(bytes)[k] as char,
            ),
        forall|k: int| 0 <= k < hex_bytes_of(bytes).len() ==> #[trigger] hex_bytes_of(bytes)[k]
            < 128,
    decreases bytes.len(),
{
    if bytes.len() > 0 {
        lemma_hex_bytes_shape(bytes.drop_first());
    }
}

/// The shape facts of `lemma_hex_bytes_shape`, read on the character form.
pub proof fn lemma_hex_shape(bytes: Seq<u8>)
    ensures
        hex_of(bytes).len() == 2 * bytes.len(),
        forall|k: int| 0 <= k < hex_of(bytes).len() ==> is_hex_char(#[trigger] hex_of(bytes)[k]),
{
    lemma_hex_bytes_shape(bytes);
}

/// Lowercase hexadecimal rendering of `bytes`, two digits per byte.
pub fn bytes_to_hex(bytes: &Vec<u8>) -> (r: String)
    ensures
        r@ == hex_of(bytes@),
        r@.len() == 2 * bytes@.len(),
        forall|k: int| 0 <= k < r@.len() ==> is_hex_char(#[trigger] r@[k]),
{
    let mut acc: Vec<u8> = Vec::new();
    let mut i: usize = 0;
    while i < bytes.len()
        invariant
            i <= bytes@.len(),
            acc@ =~= hex_bytes_of(bytes@.take(i as int)),
        decreases bytes@.len() - i,
    {
        let b = bytes[i];
        acc.push(if b / 16 < 10 {
            48 + b / 16
        } else {
            87 + b / 16
        });
        acc.push(if b % 16 < 10 {
            48 + b % 16
        } else {
            87 + b % 16
        });
        proof {
            lemma_hex_bytes_push(bytes@.take(i as int), b);
            assert(bytes@.take(i + 1 as int) =~= bytes@.take(i as int).push(b));
        }
        i = i + 1;
    }
    proof {
        assert(bytes@.take(bytes@.len() as int) =~= bytes@);
        lemma_hex_bytes_shape(bytes@);
    }
    ascii_bytes_to_string(acc)
}

} // verus!
