//! Base64: the two forms in which bytes are written as text.
use vstd::prelude::*;

verus! {

/// Which symbols stand for the two highest digits.
pub enum Alphabet {
    /// `+` and `/`.
    Standard,
    /// `-` and `_`.
    UrlSafe,
}

/// The symbol of a digit between 0 and 63: capitals, small letters, numerals and two more.
pub open spec fn symbol(alphabet: Alphabet, digit: int) -> char {
    if digit < 26 {
        (65 + digit) as char
    } else if digit < 52 {
        (71 + digit) as char
    } else if digit < 62 {
        (digit - 4) as char
    } else {
        match alphabet {
            Alphabet::Standard => if digit == 62 {
                '+'
            } else {
                '/'
            },
            Alphabet::UrlSafe => if digit == 62 {
                '-'
            } else {
                '_'
            },
        }
    }
}

/// Three bytes as four digits of six bits.
pub open spec fn group(alphabet: Alphabet, a: u8, b: u8, c: u8) -> Seq<char> {
    seq![
        symbol(alphabet, a as int / 4),
        symbol(alphabet, a as int % 4 * 16 + b as int / 16),
        symbol(alphabet, b as int % 16 * 4 + c as int / 64),
        symbol(alphabet, c as int % 64),
    ]
}

/// The base64 form of the bytes: three bytes by three. One or two bytes that are left over make
/// two or three digits, and with padding the group is filled up with `=`.
pub open spec fn base64_form(alphabet: Alphabet, padded: bool, bytes: Seq<u8>) -> Seq<char>
    decreases bytes.len(),
{
    if bytes.len() == 0 {
        seq![]
    } else if bytes.len() == 1 {
        group(alphabet, bytes[0], 0, 0).take(2) + if padded {
            seq!['=', '=']
        } else {
            seq![]
        }
    } else if bytes.len() == 2 {
        group(alphabet, bytes[0], bytes[1], 0).take(3) + if padded {
            seq!['=']
        } else {
            seq![]
        }
    } else {
        group(alphabet, bytes[0], bytes[1], bytes[2]) + base64_form(
            alphabet,
            padded,
            bytes.skip(3),
        )
    }
}

/// The unpadded URL-safe base64 form of the bytes.
pub open spec fn base64_url(bytes: Seq<u8>) -> Seq<char> {
    base64_form(Alphabet::UrlSafe, false, bytes)
}

/// The padded standard base64 form of the bytes.
pub open spec fn base64_standard(bytes: Seq<u8>) -> Seq<char> {
    base64_form(Alphabet::Standard, true, bytes)
}

/// The bytes that a text is the padded standard base64 form of.
pub open spec fn base64_bytes(text: Seq<char>) -> Seq<u8> {
    choose|bytes: Seq<u8>| base64_standard(bytes) == text
}

/// The number of characters of the base64 form of `n` bytes.
pub open spec fn base64_len(padded: bool, n: nat) -> nat {
    if padded {
        (n + 2) / 3 * 4
    } else {
        (4 * n + 2) / 3
    }
}

/// The characters of the URL-safe base64 alphabet.
pub open spec fn url_safe(c: char) -> bool {
    'A' <= c <= 'Z' || 'a' <= c <= 'z' || '0' <= c <= '9' || c == '-' || c == '_'
}

/// Wraps `base64::Engine::encode` of `URL_SAFE_NO_PAD`. Claimed: the text is the unpadded
/// URL-safe base64 form of the bytes. (Encoding panics where the text does not fit in memory.)
#[verifier::external_body]
pub(crate) fn encode_url(bytes: &[u8]) -> (r: String)
    requires
        base64_len(false, bytes@.len()) <= isize::MAX,
    ensures
        r@ == base64_url(bytes@),
{
    base64::Engine::encode(&base64::engine::general_purpose::URL_SAFE_NO_PAD, bytes)
}

/// Wraps `base64::Engine::encode` of `STANDARD`. Claimed: the text is the padded standard base64
/// form of the bytes. (Encoding panics where the text does not fit in memory.)
#[verifier::external_body]
pub(crate) fn encode_standard(bytes: &[u8]) -> (r: String)
    requires
        base64_len(true, bytes@.len()) <= isize::MAX,
    ensures
        r@ == base64_standard(bytes@),
{
    base64::Engine::encode(&base64::engine::general_purpose::STANDARD, bytes)
}

/// The base64 form of `n` bytes has `base64_len` characters.
pub proof fn form_has_length(alphabet: Alphabet, padded: bool, bytes: Seq<u8>)
    ensures
        base64_form(alphabet, padded, bytes).len() == base64_len(padded, bytes.len()),
    decreases bytes.len(),
{
    if bytes.len() >= 3 {
        form_has_length(alphabet, padded, bytes.skip(3));
    }
}

/// The URL-safe form holds characters of its alphabet alone.
pub proof fn url_form_is_url_safe(bytes: Seq<u8>)
    ensures
        forall|i: int| 0 <= i < base64_url(bytes).len() ==> url_safe(#[trigger] base64_url(bytes)[i]),
    decreases bytes.len(),
{
    let form = base64_url(bytes);
    if bytes.len() >= 3 {
        let rest = base64_url(bytes.skip(3));
        url_form_is_url_safe(bytes.skip(3));
        assert forall|i: int| 0 <= i < form.len() implies url_safe(#[trigger] form[i]) by {
            if i >= 4 {
                assert(form[i] == rest[i - 4]);
            }
        }
    }
}

proof fn symbols_differ(alphabet: Alphabet, a: int, b: int)
    requires
        0 <= a < 64,
        0 <= b < 64,
        symbol(alphabet, a) == symbol(alphabet, b),
    ensures
        a == b,
{
}

proof fn groups_differ(alphabet: Alphabet, a: (u8, u8, u8), b: (u8, u8, u8), n: int)
    requires
        2 <= n <= 4,
        forall|i: int|
            0 <= i < n ==> #[trigger] group(alphabet, a.0, a.1, a.2)[i] == group(
                alphabet,
                b.0,
                b.1,
                b.2,
            )[i],
        n == 2 ==> a.1 == b.1 && a.2 == b.2,
        n == 3 ==> a.2 == b.2,
    ensures
        a == b,
{
    let left = group(alphabet, a.0, a.1, a.2);
    let right = group(alphabet, b.0, b.1, b.2);
    assert(left[0] == right[0]);
    assert(left[1] == right[1]);
    symbols_differ(alphabet, a.0 as int / 4, b.0 as int / 4);
    symbols_differ(
        alphabet,
        a.0 as int % 4 * 16 + a.1 as int / 16,
        b.0 as int % 4 * 16 + b.1 as int / 16,
    );
    if n >= 3 {
        assert(left[2] == right[2]);
        symbols_differ(
            alphabet,
            a.1 as int % 16 * 4 + a.2 as int / 64,
            b.1 as int % 16 * 4 + b.2 as int / 64,
        );
    }
    if n == 4 {
        assert(left[3] == right[3]);
        symbols_differ(alphabet, a.2 as int % 64, b.2 as int % 64);
    }
}

proof fn symbol_is_no_padding(alphabet: Alphabet, digit: int)
    requires
        0 <= digit < 64,
    ensures
        symbol(alphabet, digit) != '=',
{
}

/// Different bytes have different base64 forms: nothing is lost by writing them so.
pub proof fn form_is_injective(alphabet: Alphabet, padded: bool, a: Seq<u8>, b: Seq<u8>)
    requires
        base64_form(alphabet, padded, a) == base64_form(alphabet, padded, b),
    ensures
        a == b,
    decreases a.len(),
{
    let left = base64_form(alphabet, padded, a);
    let right = base64_form(alphabet, padded, b);
    form_has_length(alphabet, padded, a);
    form_has_length(alphabet, padded, b);
    if a.len() >= 3 && b.len() >= 3 {
        let first = group(alphabet, a[0], a[1], a[2]);
        let second = group(alphabet, b[0], b[1], b[2]);
        assert forall|i: int| 0 <= i < 4 implies #[trigger] first[i] == second[i] by {
            assert(left[i] == first[i]);
            assert(right[i] == second[i]);
        }
        groups_differ(alphabet, (a[0], a[1], a[2]), (b[0], b[1], b[2]), 4);
        assert(left.skip(4) =~= base64_form(alphabet, padded, a.skip(3)));
        assert(right.skip(4) =~= base64_form(alphabet, padded, b.skip(3)));
        form_is_injective(alphabet, padded, a.skip(3), b.skip(3));
        assert forall|i: int| 0 <= i < a.len() implies a[i] == b[i] by {
            if i >= 3 {
                assert(a[i] == a.skip(3)[i - 3]);
                assert(b[i] == b.skip(3)[i - 3]);
            }
        }
        assert(a.len() == a.skip(3).len() + 3 && b.len() == b.skip(3).len() + 3);
        assert(a =~= b);
    } else if a.len() == 2 && b.len() == 2 {
        let first = group(alphabet, a[0], a[1], 0);
        let second = group(alphabet, b[0], b[1], 0);
        assert forall|i: int| 0 <= i < 3 implies #[trigger] first[i] == second[i] by {
            assert(left[i] == first[i]);
            assert(right[i] == second[i]);
        }
        groups_differ(alphabet, (a[0], a[1], 0), (b[0], b[1], 0), 3);
        assert(a =~= b);
    } else if a.len() == 1 && b.len() == 1 {
        let first = group(alphabet, a[0], 0, 0);
        let second = group(alphabet, b[0], 0, 0);
        assert forall|i: int| 0 <= i < 2 implies #[trigger] first[i] == second[i] by {
            assert(left[i] == first[i]);
            assert(right[i] == second[i]);
        }
        groups_differ(alphabet, (a[0], 0, 0), (b[0], 0, 0), 2);
        assert(a =~= b);
    } else if a.len() == 0 && b.len() == 0 {
        assert(a =~= b);
    } else if a.len() > 0 && b.len() > 0 && padded {
        left_over_shows(alphabet, a);
        left_over_shows(alphabet, b);
    }
}

/// Whether one or two bytes are left over shows in the first group of the padded form.
proof fn left_over_shows(alphabet: Alphabet, bytes: Seq<u8>)
    requires
        bytes.len() > 0,
    ensures
        ({
            let form = base64_form(alphabet, true, bytes);
            &&& form.len() >= 4
            &&& form[3] == '=' <==> bytes.len() <= 2
            &&& form[2] == '=' <==> bytes.len() == 1
        }),
{
    let form = base64_form(alphabet, true, bytes);
    if bytes.len() >= 2 {
        let c = if bytes.len() == 2 {
            0u8
        } else {
            bytes[2]
        };
        symbol_is_no_padding(alphabet, bytes[1] as int % 16 * 4 + c as int / 64);
        symbol_is_no_padding(alphabet, c as int % 64);
        assert(form[2] == group(alphabet, bytes[0], bytes[1], c)[2]);
    }
}

/// Reading a padded standard form gives back the bytes that were written.
pub proof fn standard_form_reads_back(bytes: Seq<u8>)
    ensures
        base64_bytes(base64_standard(bytes)) == bytes,
{
    let read = base64_bytes(base64_standard(bytes));
    form_is_injective(Alphabet::Standard, true, read, bytes);
}

} // verus!
