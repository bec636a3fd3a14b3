//! Forms: names and values as one text, as the query of a URL and the body of a request hold them.
use vstd::prelude::*;
use vstd::utf8::*;

verus! {

/// The texts of a list of pairs.
pub open spec fn pair_texts(list: Seq<(String, String)>) -> Seq<(Seq<char>, Seq<char>)> {
    list.map_values(|pair: (String, String)| (pair.0@, pair.1@))
}

/// The digit of the hexadecimal numeral for `n`, in capitals.
pub open spec fn hex_digit(n: u8) -> char {
    if n < 10 {
        (48 + n) as char
    } else {
        (55 + n) as char
    }
}

/// How a form writes one byte: letters, digits, `*`, `-`, `.` and `_` stay, a space is a plus
/// sign, any other byte is a percent sign and two hexadecimal digits.
pub open spec fn form_byte(b: u8) -> Seq<char> {
    if 0x30 <= b <= 0x39 || 0x41 <= b <= 0x5a || 0x61 <= b <= 0x7a || b == 0x2a || b == 0x2d || b
        == 0x2e || b == 0x5f {
        seq![b as char]
    } else if b == 0x20 {
        seq!['+']
    } else {
        seq!['%', hex_digit(b / 16), hex_digit(b % 16)]
    }
}

/// How a form writes bytes.
pub open spec fn form_bytes(bytes: Seq<u8>) -> Seq<char>
    decreases bytes.len(),
{
    if bytes.len() == 0 {
        seq![]
    } else {
        form_byte(bytes[0]) + form_bytes(bytes.drop_first())
    }
}

/// How a form writes a text: by its UTF-8 bytes.
pub open spec fn form_text(text: Seq<char>) -> Seq<char> {
    form_bytes(encode_utf8(text))
}

/// How a form writes a name and its value.
pub open spec fn form_pair(pair: (Seq<char>, Seq<char>)) -> Seq<char> {
    form_text(pair.0) + seq!['='] + form_text(pair.1)
}

/// How a form writes a list of names and values.
pub open spec fn form_pairs(pairs: Seq<(Seq<char>, Seq<char>)>) -> Seq<char>
    decreases pairs.len(),
{
    if pairs.len() == 0 {
        seq![]
    } else if pairs.len() == 1 {
        form_pair(pairs[0])
    } else {
        form_pair(pairs[0]) + seq!['&'] + form_pairs(pairs.drop_first())
    }
}

/// Wraps `url::form_urlencoded::Serializer::extend_pairs` on an empty string. Claimed: the pairs
/// are written in order, each name and value percent-encoded, with `=` within a pair and `&`
/// between pairs.
#[verifier::external_body]
pub(crate) fn encode_form(pairs: &Vec<(String, String)>) -> (r: String)
    ensures
        r@ == form_pairs(pair_texts(pairs@)),
{
    url::form_urlencoded::Serializer::new(String::new()).extend_pairs(pairs).finish()
}

pub(crate) fn pair(name: &str, value: &str) -> (r: (String, String))
    ensures
        r.0@ == name@,
        r.1@ == value@,
{
    (name.to_owned(), value.to_owned())
}

/// The first place of `c` in `s`, or the length of `s`.
pub open spec fn first_place(s: Seq<char>, c: char) -> int
    decreases s.len(),
{
    if s.len() == 0 || s[0] == c {
        0
    } else {
        1 + first_place(s.drop_first(), c)
    }
}

/// The value of a hexadecimal digit, in either case.
pub open spec fn hex_value(c: char) -> Option<u8> {
    if '0' <= c <= '9' {
        Some((c as int - 48) as u8)
    } else if 'A' <= c <= 'F' {
        Some((c as int - 55) as u8)
    } else if 'a' <= c <= 'f' {
        Some((c as int - 87) as u8)
    } else {
        None
    }
}

/// The byte that `s` starts with in percent-encoding.
pub open spec fn escaped_byte(s: Seq<char>) -> Option<u8> {
    if s.len() >= 3 && s[0] == '%' {
        match (hex_value(s[1]), hex_value(s[2])) {
            (Some(high), Some(low)) => Some((high * 16 + low) as u8),
            _ => None,
        }
    } else {
        None
    }
}

/// The bytes that a form's text stands for: a plus sign is a space, a percent sign and two
/// hexadecimal digits are a byte, and everything else stands for itself.
pub open spec fn read_bytes(s: Seq<char>) -> Seq<u8>
    decreases s.len(),
{
    if s.len() == 0 {
        seq![]
    } else if escaped_byte(s) is Some {
        seq![escaped_byte(s)->0] + read_bytes(s.skip(3))
    } else if s[0] == '+' {
        seq![0x20u8] + read_bytes(s.drop_first())
    } else {
        encode_utf8(seq![s[0]]) + read_bytes(s.drop_first())
    }
}

/// The text that a form's text stands for.
pub open spec fn read_text(s: Seq<char>) -> Seq<char> {
    decode_utf8(read_bytes(s))
}

/// The name and the value of one part of a form: what stands before the first equals sign, and
/// what stands behind it.
pub open spec fn read_pair(s: Seq<char>) -> (Seq<char>, Seq<char>) {
    let at = first_place(s, '=');
    (
        read_text(s.take(at)),
        if at < s.len() {
            read_text(s.skip(at + 1))
        } else {
            seq![]
        },
    )
}

/// The names and values of a form: those of its parts between ampersands, but for empty parts.
pub open spec fn form_read(s: Seq<char>) -> Seq<(Seq<char>, Seq<char>)>
    decreases s.len(),
{
    if s.len() == 0 {
        seq![]
    } else {
        let end = first_place(s, '&');
        let later = if 0 <= end < s.len() {
            form_read(s.skip(end + 1))
        } else {
            seq![]
        };
        if end == 0 {
            later
        } else {
            seq![read_pair(s.take(end))] + later
        }
    }
}

/// No character of `s` is `c`.
spec fn lacks(s: Seq<char>, c: char) -> bool {
    forall|i: int| 0 <= i < s.len() ==> #[trigger] s[i] != c
}

proof fn place_behind(s: Seq<char>, c: char, rest: Seq<char>)
    requires
        lacks(s, c),
        rest.len() > 0 ==> rest[0] == c,
    ensures
        first_place(s + rest, c) == s.len(),
    decreases s.len(),
{
    let all = s + rest;
    if s.len() == 0 {
        assert(all =~= rest);
    } else {
        assert(all[0] == s[0]);
        assert(all.drop_first() =~= s.drop_first() + rest);
        assert(lacks(s.drop_first(), c)) by {
            assert forall|i: int| 0 <= i < s.drop_first().len() implies #[trigger] s.drop_first()[i]
                != c by {
                assert(s.drop_first()[i] == s[i + 1]);
            }
        }
        place_behind(s.drop_first(), c, rest);
    }
}

proof fn byte_reads_back(b: u8, rest: Seq<char>)
    ensures
        read_bytes(form_byte(b) + rest) == seq![b] + read_bytes(rest),
{
    let all = form_byte(b) + rest;
    if 0x30 <= b <= 0x39 || 0x41 <= b <= 0x5a || 0x61 <= b <= 0x7a || b == 0x2a || b == 0x2d || b
        == 0x2e || b == 0x5f {
        let one = seq![b as char];
        assert(all[0] == b as char);
        assert(all.drop_first() =~= rest);
        assert(is_ascii_chars(one));
        is_ascii_chars_encode_utf8(one);
        assert(one[0] as u8 == encode_utf8(one)[0]);
        assert(encode_utf8(one) =~= seq![b]);
        assert(seq![all[0]] =~= one);
    } else if b == 0x20 {
        assert(all[0] == '+');
        assert(all.drop_first() =~= rest);
    } else {
        let (high, low) = (b / 16, b % 16);
        assert(all[0] == '%' && all[1] == hex_digit(high) && all[2] == hex_digit(low));
        assert(hex_value(hex_digit(high)) == Some(high));
        assert(hex_value(hex_digit(low)) == Some(low));
        assert(high * 16 + low == b);
        assert(all.skip(3) =~= rest);
    }
}

proof fn bytes_read_back(bytes: Seq<u8>)
    ensures
        read_bytes(form_bytes(bytes)) == bytes,
    decreases bytes.len(),
{
    if bytes.len() > 0 {
        let rest = bytes.drop_first();
        bytes_read_back(rest);
        byte_reads_back(bytes[0], form_bytes(rest));
        assert(seq![bytes[0]] + rest =~= bytes);
    }
}

/// A text that a form wrote reads back.
pub proof fn text_reads_back(text: Seq<char>)
    ensures
        read_text(form_text(text)) == text,
{
    bytes_read_back(encode_utf8(text));
    encode_utf8_decode_utf8(text);
}

proof fn bytes_lack_separators(bytes: Seq<u8>)
    ensures
        lacks(form_bytes(bytes), '&'),
        lacks(form_bytes(bytes), '='),
    decreases bytes.len(),
{
    if bytes.len() > 0 {
        let first = form_byte(bytes[0]);
        let rest = form_bytes(bytes.drop_first());
        bytes_lack_separators(bytes.drop_first());
        assert forall|i: int| 0 <= i < form_bytes(bytes).len() implies {
            let c = #[trigger] form_bytes(bytes)[i];
            c != '&' && c != '='
        } by {
            if i < first.len() {
                assert(form_bytes(bytes)[i] == first[i]);
            } else {
                assert(form_bytes(bytes)[i] == rest[i - first.len()]);
            }
        }
    }
}

proof fn pair_reads_back(pair: (Seq<char>, Seq<char>))
    ensures
        read_pair(form_pair(pair)) == pair,
        lacks(form_pair(pair), '&'),
        form_pair(pair).len() > 0,
{
    let (name, value) = (form_text(pair.0), form_text(pair.1));
    let written = form_pair(pair);
    bytes_lack_separators(encode_utf8(pair.0));
    bytes_lack_separators(encode_utf8(pair.1));
    text_reads_back(pair.0);
    text_reads_back(pair.1);
    assert(written =~= name + (seq!['='] + value));
    place_behind(name, '=', seq!['='] + value);
    assert(written.take(name.len() as int) =~= name);
    assert(written.skip(name.len() as int + 1) =~= value);
    assert forall|i: int| 0 <= i < written.len() implies #[trigger] written[i] != '&' by {
        if i < name.len() {
            assert(written[i] == name[i]);
        } else if i > name.len() {
            assert(written[i] == value[i - name.len() - 1]);
        }
    }
}

/// What a form wrote reads back: the same names and values, in the same order, whatever characters
/// they hold.
pub proof fn form_reads_back(pairs: Seq<(Seq<char>, Seq<char>)>)
    ensures
        form_read(form_pairs(pairs)) == pairs,
    decreases pairs.len(),
{
    if pairs.len() > 0 {
        let first = form_pair(pairs[0]);
        let rest = pairs.drop_first();
        let written = form_pairs(pairs);
        pair_reads_back(pairs[0]);
        form_reads_back(rest);
        if pairs.len() == 1 {
            place_behind(first, '&', seq![]);
            assert(first + seq![] =~= first);
            assert(written.take(first.len() as int) =~= first);
            assert(form_read(written) =~= pairs);
        } else {
            let tail = seq!['&'] + form_pairs(rest);
            assert(written =~= first + tail);
            place_behind(first, '&', tail);
            assert(written.take(first.len() as int) =~= first);
            assert(written.skip(first.len() as int + 1) =~= form_pairs(rest));
            assert(seq![pairs[0]] + rest =~= pairs);
        }
    }
}

/// The texts of pairs are those of each name and value, in order.
pub proof fn pair_texts_are_those_of_each(list: Seq<(String, String)>)
    ensures
        pair_texts(list).len() == list.len(),
        forall|i: int|
            0 <= i < list.len() ==> #[trigger] pair_texts(list)[i] == (list[i].0@, list[i].1@),
{
}

} // verus!
