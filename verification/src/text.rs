//! Text as sequences of characters: the blanks, lines, words and numbers that the protocol reads
//! and writes, each with the function on `Seq<char>` that it computes.
use vstd::prelude::*;
use vstd::string::*;
use vstd::utf8::*;

verus! {

/// Characters with the Unicode `White_Space` property.
pub open spec fn white_space(c: char) -> bool {
    ||| '\u{9}' <= c <= '\u{d}'
    ||| c == ' '
    ||| c == '\u{85}'
    ||| c == '\u{a0}'
    ||| c == '\u{1680}'
    ||| '\u{2000}' <= c <= '\u{200a}'
    ||| c == '\u{2028}'
    ||| c == '\u{2029}'
    ||| c == '\u{202f}'
    ||| c == '\u{205f}'
    ||| c == '\u{3000}'
}

/// The blanks of ASCII: space, tab, line feed, form feed and carriage return.
pub open spec fn ascii_blank(c: char) -> bool {
    c == ' ' || c == '\t' || c == '\n' || c == '\u{c}' || c == '\r'
}

/// Characters of the Unicode category `Cc`.
pub open spec fn control(c: char) -> bool {
    c <= '\u{1f}' || '\u{7f}' <= c <= '\u{9f}'
}

/// What separates words: the blanks of ASCII, or every `White_Space` character.
pub enum Blanks {
    Ascii,
    Unicode,
}

impl Blanks {
    pub open spec fn holds(self, c: char) -> bool {
        match self {
            Blanks::Ascii => ascii_blank(c),
            Blanks::Unicode => white_space(c),
        }
    }

    /// Whether `c` separates words.
    pub fn contains(&self, c: char) -> (r: bool)
        ensures
            r == self.holds(c),
    {
        match self {
            Blanks::Ascii => c == ' ' || c == '\t' || c == '\n' || c == '\u{c}' || c == '\r',
            Blanks::Unicode => is_white_space(c),
        }
    }
}

/// Whether `c` has the Unicode `White_Space` property.
pub fn is_white_space(c: char) -> (r: bool)
    ensures
        r == white_space(c),
{
    ('\u{9}' <= c && c <= '\u{d}') || c == ' ' || c == '\u{85}' || c == '\u{a0}' || c == '\u{1680}'
        || ('\u{2000}' <= c && c <= '\u{200a}') || c == '\u{2028}' || c == '\u{2029}' || c
        == '\u{202f}' || c == '\u{205f}' || c == '\u{3000}'
}

/// Whether `c` is a control character.
pub fn is_control(c: char) -> (r: bool)
    ensures
        r == control(c),
{
    c <= '\u{1f}' || ('\u{7f}' <= c && c <= '\u{9f}')
}

/// `String::push` appends one character.
pub assume_specification[ String::push ](s: &mut String, c: char)
    ensures
        final(s)@ == old(s)@.push(c),
;

/// The texts of a list of strings.
pub open spec fn texts(list: Seq<String>) -> Seq<Seq<char>> {
    list.map_values(|s: String| s@)
}

/// The text of an optional string.
pub open spec fn optional_text(s: Option<String>) -> Option<Seq<char>> {
    match s {
        Some(s) => Some(s@),
        None => None,
    }
}

/// The text of an optional borrowed string.
pub open spec fn optional_str(s: Option<&str>) -> Option<Seq<char>> {
    match s {
        Some(s) => Some(s@),
        None => None,
    }
}

/// The characters of `s`.
pub fn to_chars(s: &str) -> (r: Vec<char>)
    ensures
        r@ == s@,
{
    let mut out: Vec<char> = Vec::new();
    for c in it: s.chars()
        invariant
            it.seq() == s@,
            out@ == s@.take(it.index() as int),
    {
        out.push(c);
    }
    out
}

/// The text of `chars[from..to]`.
pub fn to_text(chars: &Vec<char>, from: usize, to: usize) -> (r: String)
    requires
        from <= to <= chars.len(),
    ensures
        r@ == chars@.subrange(from as int, to as int),
{
    let mut out = String::new();
    let mut i: usize = from;
    while i < to
        invariant
            from <= i <= to <= chars.len(),
            out@ == chars@.subrange(from as int, i as int),
        decreases to - i,
    {
        out.push(chars[i]);
        i = i + 1;
    }
    out
}

/// The number of bytes of `s` in UTF-8.
pub fn byte_len(s: &str) -> (n: usize)
    ensures
        n == encode_utf8(s@).len(),
{
    s.as_bytes().len()
}

/// A text that is neither empty nor longer than `limit` bytes.
pub open spec fn bounded(text: Seq<char>, limit: usize) -> bool {
    0 < text.len() && encode_utf8(text).len() <= limit
}

/// Whether the text is neither empty nor longer than `limit` bytes.
pub fn is_bounded(text: &str, limit: usize) -> (r: bool)
    ensures
        r == bounded(text@, limit),
{
    !text.is_empty() && byte_len(text) <= limit
}

/// Different texts have different encodings.
pub proof fn encoding_is_injective(a: Seq<char>, b: Seq<char>)
    ensures
        encode_utf8(a) == encode_utf8(b) <==> a == b,
{
    encode_utf8_decode_utf8(a);
    encode_utf8_decode_utf8(b);
}

/// Whether the two texts are the same.
pub fn str_eq(a: &str, b: &str) -> (r: bool)
    ensures
        r == (a@ == b@),
{
    a.to_owned() == b.to_owned()
}

/// `s` without the white space at its start.
pub open spec fn trimmed_start(s: Seq<char>) -> Seq<char>
    decreases s.len(),
{
    if s.len() > 0 && white_space(s[0]) {
        trimmed_start(s.drop_first())
    } else {
        s
    }
}

/// `s` without the white space at its end.
pub open spec fn trimmed_end(s: Seq<char>) -> Seq<char>
    decreases s.len(),
{
    if s.len() > 0 && white_space(s.last()) {
        trimmed_end(s.drop_last())
    } else {
        s
    }
}

/// `s` without the white space at its two ends.
pub open spec fn trimmed(s: Seq<char>) -> Seq<char> {
    trimmed_end(trimmed_start(s))
}

/// What is left after `trimmed` has no white space at its two ends.
pub proof fn trimmed_has_no_blank_ends(s: Seq<char>)
    ensures
        trimmed(s).len() > 0 ==> !white_space(trimmed(s)[0]) && !white_space(trimmed(s).last()),
{
    start_is_trimmed(s);
    end_is_trimmed(trimmed_start(s));
}

proof fn start_is_trimmed(s: Seq<char>)
    ensures
        trimmed_start(s).len() > 0 ==> !white_space(trimmed_start(s)[0]),
    decreases s.len(),
{
    if s.len() > 0 && white_space(s[0]) {
        start_is_trimmed(s.drop_first());
    }
}

proof fn end_is_trimmed(s: Seq<char>)
    ensures
        trimmed_end(s).len() > 0 ==> !white_space(trimmed_end(s).last()) && trimmed_end(s)[0]
            == s[0],
    decreases s.len(),
{
    if s.len() > 0 && white_space(s.last()) {
        end_is_trimmed(s.drop_last());
    }
}

/// The part of `s` between the white space at its two ends.
pub fn trim<'a>(s: &'a str) -> (r: &'a str)
    ensures
        r@ == trimmed(s@),
{
    let chars = to_chars(s);
    let mut from: usize = 0;
    assert(s@.skip(0) == s@);
    while from < chars.len() && is_white_space(chars[from])
        invariant
            from <= chars.len(),
            chars@ == s@,
            trimmed_start(s@) == trimmed_start(s@.skip(from as int)),
        decreases chars.len() - from,
    {
        assert(s@.skip(from as int).drop_first() == s@.skip(from + 1));
        from = from + 1;
    }
    let ghost rest = s@.skip(from as int);
    assert(trimmed_start(s@) == rest);
    let mut to: usize = chars.len();
    while from < to && is_white_space(chars[to - 1])
        invariant
            from <= to <= chars.len(),
            chars@ == s@,
            trimmed_end(rest) == trimmed_end(s@.subrange(from as int, to as int)),
        decreases to,
    {
        assert(s@.subrange(from as int, to as int).drop_last() == s@.subrange(
            from as int,
            to - 1,
        ));
        to = to - 1;
    }
    s.substring_char(from, to)
}

/// The maximal runs of characters of `s` that are no blanks, in order.
pub open spec fn words(s: Seq<char>, blanks: Blanks) -> Seq<Seq<char>>
    decreases s.len(),
{
    if s.len() == 0 {
        seq![]
    } else {
        let before = words(s.drop_last(), blanks);
        if blanks.holds(s.last()) {
            before
        } else if s.len() == 1 || blanks.holds(s[s.len() - 2]) {
            before.push(seq![s.last()])
        } else {
            before.drop_last().push(before.last().push(s.last()))
        }
    }
}

/// The words of `s`.
pub fn split_words(s: &str, blanks: Blanks) -> (r: Vec<String>)
    ensures
        texts(r@) == words(s@, blanks),
{
    let chars = to_chars(s);
    let mut out: Vec<String> = Vec::new();
    let mut word = String::new();
    let mut inside = false;
    let mut i: usize = 0;
    while i < chars.len()
        invariant
            i <= chars.len(),
            chars@ == s@,
            inside == (i > 0 && !blanks.holds(s@[i - 1])),
            words(s@.take(i as int), blanks) == if inside {
                texts(out@).push(word@)
            } else {
                texts(out@)
            },
            !inside ==> word@ == Seq::<char>::empty(),
        decreases chars.len() - i,
    {
        let c = chars[i];
        let ghost before = s@.take(i as int);
        let ghost now = s@.take(i + 1);
        assert(now.drop_last() == before);
        assert(now.last() == c);
        if i > 0 {
            assert(now[now.len() - 2] == s@[i - 1]);
        }
        if blanks.contains(c) {
            if inside {
                let ghost old_out = out@;
                out.push(word);
                assert(texts(out@) == texts(old_out).push(word@));
                word = String::new();
                inside = false;
            }
        } else {
            let ghost old_word = word@;
            word.push(c);
            if inside {
                assert(texts(out@).push(old_word).drop_last() == texts(out@));
            } else {
                assert(word@ == seq![c]);
            }
            inside = true;
        }
        i = i + 1;
    }
    assert(s@.take(i as int) == s@);
    if inside {
        let ghost old_out = out@;
        out.push(word);
        assert(texts(out@) == texts(old_out).push(word@));
    }
    out
}

/// Whether `text` is one of `list`.
pub fn contains_str(list: &Vec<String>, text: &str) -> (r: bool)
    ensures
        r == texts(list@).contains(text@),
{
    let mut i: usize = 0;
    while i < list.len()
        invariant
            i <= list.len(),
            forall|j: int| 0 <= j < i ==> #[trigger] list@[j]@ != text@,
        decreases list.len() - i,
    {
        if str_eq(list[i].as_str(), text) {
            assert(texts(list@)[i as int] == text@);
            return true;
        }
        i = i + 1;
    }
    assert forall|j: int| 0 <= j < texts(list@).len() implies texts(list@)[j] != text@ by {
        assert(list@[j]@ != text@);
    }
    false
}

/// The place of the first line feed of `s`, or the length of `s`.
pub open spec fn line_end(s: Seq<char>) -> int
    decreases s.len(),
{
    if s.len() == 0 || s[0] == '\n' {
        0
    } else {
        1 + line_end(s.drop_first())
    }
}

/// The first line of `s` without its ending (`\n` or `\r\n`); an empty text has none.
pub open spec fn first_line(s: Seq<char>) -> Option<Seq<char>> {
    let end = line_end(s);
    if s.len() == 0 {
        None
    } else if end == s.len() || end == 0 || s[end - 1] != '\r' {
        Some(s.take(end))
    } else {
        Some(s.take(end - 1))
    }
}

/// The first line of `s`, if there is one.
pub fn get_first_line(s: &str) -> (r: Option<String>)
    ensures
        r is Some <==> first_line(s@) is Some,
        r matches Some(line) ==> line@ == first_line(s@)->0,
{
    let chars = to_chars(s);
    if chars.len() == 0 {
        return None;
    }
    let mut end: usize = 0;
    assert(s@.skip(0) == s@);
    while end < chars.len() && chars[end] != '\n'
        invariant
            end <= chars.len(),
            chars@ == s@,
            line_end(s@) == end + line_end(s@.skip(end as int)),
        decreases chars.len() - end,
    {
        assert(s@.skip(end as int).drop_first() == s@.skip(end + 1));
        end = end + 1;
    }
    assert(line_end(s@) == end);
    if end < chars.len() && end > 0 && chars[end - 1] == '\r' {
        Some(to_text(&chars, 0, end - 1))
    } else {
        Some(to_text(&chars, 0, end))
    }
}

/// `needle` occurs in `s` at `at`.
pub open spec fn occurs_at<T>(s: Seq<T>, needle: Seq<T>, at: int) -> bool {
    0 <= at && at + needle.len() <= s.len() && s.subrange(at, at + needle.len()) == needle
}

/// `needle` occurs in `s`.
pub open spec fn occurs<T>(s: Seq<T>, needle: Seq<T>) -> bool {
    exists|at: int| occurs_at(s, needle, at)
}

/// Whether `needle` occurs in `chars`.
pub fn contains_text(chars: &Vec<char>, needle: &str) -> (r: bool)
    ensures
        r == occurs(chars@, needle@),
{
    let wanted = to_chars(needle);
    if wanted.len() > chars.len() {
        return false;
    }
    let last: usize = chars.len() - wanted.len();
    let mut at: usize = 0;
    while at <= last
        invariant
            at <= last + 1,
            last + wanted.len() == chars.len(),
            wanted@ == needle@,
            forall|k: int| 0 <= k < at ==> !occurs_at(chars@, needle@, k),
        decreases last + 1 - at,
    {
        let mut j: usize = 0;
        while j < wanted.len() && chars[at + j] == wanted[j]
            invariant
                j <= wanted.len(),
                at <= last,
                last + wanted.len() == chars.len(),
                forall|k: int| 0 <= k < j ==> chars@[at + k] == wanted@[k],
            decreases wanted.len() - j,
        {
            j = j + 1;
        }
        if j == wanted.len() {
            assert(chars@.subrange(at as int, at + needle@.len()) == needle@);
            assert(occurs_at(chars@, needle@, at as int));
            return true;
        }
        assert(!occurs_at(chars@, needle@, at as int)) by {
            if occurs_at(chars@, needle@, at as int) {
                assert(chars@.subrange(at as int, at + needle@.len())[j as int] == needle@[j as int]);
            }
        }
        if at == last {
            return false;
        }
        at = at + 1;
    }
    false
}

/// `c` with an ASCII capital turned into its small letter.
pub open spec fn ascii_lower(c: char) -> char {
    if 'A' <= c <= 'Z' {
        ((c as u32) + 32) as char
    } else {
        c
    }
}

/// `s` with every ASCII capital turned into its small letter.
pub open spec fn ascii_lowered(s: Seq<char>) -> Seq<char> {
    s.map_values(|c: char| ascii_lower(c))
}

/// `c` with an ASCII capital turned into its small letter.
pub fn to_ascii_lower(c: char) -> (r: char)
    ensures
        r == ascii_lower(c),
{
    if 'A' <= c && c <= 'Z' {
        ((c as u8) + 32) as char
    } else {
        c
    }
}

/// The characters of `s` with every ASCII capital turned into its small letter.
pub fn to_ascii_lowered(s: &str) -> (r: Vec<char>)
    ensures
        r@ == ascii_lowered(s@),
{
    let chars = to_chars(s);
    let mut out: Vec<char> = Vec::new();
    let mut i: usize = 0;
    while i < chars.len()
        invariant
            i <= chars.len(),
            out@ == ascii_lowered(chars@.take(i as int)),
        decreases chars.len() - i,
    {
        out.push(to_ascii_lower(chars[i]));
        i = i + 1;
    }
    assert(chars@.take(i as int) == s@);
    out
}

/// Whether the two texts are the same but for the case of ASCII letters.
pub fn eq_ignore_ascii_case(a: &str, b: &str) -> (r: bool)
    ensures
        r == (ascii_lowered(a@) == ascii_lowered(b@)),
{
    let left = to_ascii_lowered(a);
    let right = to_ascii_lowered(b);
    if left.len() != right.len() {
        return false;
    }
    let mut i: usize = 0;
    while i < left.len()
        invariant
            i <= left.len() == right.len(),
            left@ == ascii_lowered(a@),
            right@ == ascii_lowered(b@),
            forall|j: int| 0 <= j < i ==> left@[j] == right@[j],
        decreases left.len() - i,
    {
        if left[i] != right[i] {
            assert(left@[i as int] != right@[i as int]);
            return false;
        }
        i = i + 1;
    }
    assert(left@ == right@);
    true
}

/// The decimal digit of `n`.
pub open spec fn digit(n: nat) -> char {
    (48 + n) as char
}

/// `n` in decimal.
pub open spec fn decimal(n: nat) -> Seq<char>
    decreases n,
{
    if n < 10 {
        seq![digit(n)]
    } else {
        decimal(n / 10).push(digit(n % 10))
    }
}

/// `n` in decimal.
pub fn to_decimal(n: u64) -> (r: String)
    ensures
        r@ == decimal(n as nat),
    decreases n,
{
    if n < 10 {
        let mut out = String::new();
        out.push((48 + n as u8) as char);
        assert(out@ == decimal(n as nat));
        out
    } else {
        let mut out = to_decimal(n / 10);
        out.push((48 + (n % 10) as u8) as char);
        out
    }
}

proof fn blanks_at_start_go(before: Seq<char>, rest: Seq<char>)
    requires
        forall|i: int| 0 <= i < before.len() ==> white_space(#[trigger] before[i]),
        rest.len() > 0 ==> !white_space(rest[0]),
    ensures
        trimmed_start(before + rest) == rest,
    decreases before.len(),
{
    let all = before + rest;
    if before.len() == 0 {
        assert(all =~= rest);
    } else {
        assert(all[0] == before[0]);
        assert(all.drop_first() =~= before.drop_first() + rest);
        assert forall|i: int| 0 <= i < before.drop_first().len() implies white_space(
            #[trigger] before.drop_first()[i],
        ) by {
            assert(before.drop_first()[i] == before[i + 1]);
        }
        blanks_at_start_go(before.drop_first(), rest);
    }
}

proof fn blanks_at_end_go(rest: Seq<char>, after: Seq<char>)
    requires
        forall|i: int| 0 <= i < after.len() ==> white_space(#[trigger] after[i]),
        rest.len() > 0 ==> !white_space(rest.last()),
    ensures
        trimmed_end(rest + after) == rest,
    decreases after.len(),
{
    let all = rest + after;
    if after.len() == 0 {
        assert(all =~= rest);
    } else {
        assert(all.last() == after.last());
        assert(after.last() == after[after.len() - 1]);
        assert(all.drop_last() =~= rest + after.drop_last());
        assert forall|i: int| 0 <= i < after.drop_last().len() implies white_space(
            #[trigger] after.drop_last()[i],
        ) by {
            assert(after.drop_last()[i] == after[i]);
        }
        blanks_at_end_go(rest, after.drop_last());
    }
}

/// Trimming takes off the blanks around a text and nothing else: whatever stands between them
/// stays, the blanks within it too.
pub proof fn trimming_takes_off_outer_blanks(before: Seq<char>, inner: Seq<char>, after: Seq<char>)
    requires
        forall|i: int| 0 <= i < before.len() ==> white_space(#[trigger] before[i]),
        forall|i: int| 0 <= i < after.len() ==> white_space(#[trigger] after[i]),
        inner.len() > 0 ==> !white_space(inner[0]) && !white_space(inner.last()),
    ensures
        trimmed(before + inner + after) == inner,
{
    if inner.len() == 0 {
        let all = before + after;
        assert(before + inner + after =~= all + Seq::<char>::empty());
        assert forall|i: int| 0 <= i < all.len() implies white_space(#[trigger] all[i]) by {
            if i < before.len() {
                assert(all[i] == before[i]);
            } else {
                assert(all[i] == after[i - before.len()]);
            }
        }
        blanks_at_start_go(all, Seq::<char>::empty());
        assert(inner =~= Seq::<char>::empty());
    } else {
        assert(before + inner + after =~= before + (inner + after));
        assert((inner + after)[0] == inner[0]);
        blanks_at_start_go(before, inner + after);
        blanks_at_end_go(inner, after);
    }
}

/// Every text is some blanks, what is left of it after trimming, and some blanks.
pub proof fn trimming_keeps_the_rest(s: Seq<char>)
    ensures
        exists|before: Seq<char>, after: Seq<char>|
            {
                &&& s == #[trigger] (before + trimmed(s) + after)
                &&& forall|i: int| 0 <= i < before.len() ==> white_space(#[trigger] before[i])
                &&& forall|i: int| 0 <= i < after.len() ==> white_space(#[trigger] after[i])
            },
{
    start_is_blank(s);
    let before = choose|before: Seq<char>|
        s == #[trigger] (before + trimmed_start(s)) && forall|i: int|
            0 <= i < before.len() ==> white_space(#[trigger] before[i]);
    end_is_blank(trimmed_start(s));
    let after = choose|after: Seq<char>|
        trimmed_start(s) == #[trigger] (trimmed(s) + after) && forall|i: int|
            0 <= i < after.len() ==> white_space(#[trigger] after[i]);
    assert(s =~= before + trimmed(s) + after);
}

proof fn start_is_blank(s: Seq<char>)
    ensures
        exists|before: Seq<char>|
            s == #[trigger] (before + trimmed_start(s)) && forall|i: int|
                0 <= i < before.len() ==> white_space(#[trigger] before[i]),
    decreases s.len(),
{
    if s.len() > 0 && white_space(s[0]) {
        let rest = s.drop_first();
        start_is_blank(rest);
        let inner = choose|inner: Seq<char>|
            rest == #[trigger] (inner + trimmed_start(rest)) && forall|i: int|
                0 <= i < inner.len() ==> white_space(#[trigger] inner[i]);
        let before = seq![s[0]] + inner;
        assert(seq![s[0]] + rest =~= s);
        assert(seq![s[0]] + (inner + trimmed_start(rest)) =~= before + trimmed_start(rest));
        assert(s == before + trimmed_start(s));
        assert forall|i: int| 0 <= i < before.len() implies white_space(#[trigger] before[i]) by {
            if i > 0 {
                assert(before[i] == inner[i - 1]);
            }
        }
    } else {
        assert(s =~= Seq::<char>::empty() + trimmed_start(s));
    }
}

proof fn end_is_blank(s: Seq<char>)
    ensures
        exists|after: Seq<char>|
            s == #[trigger] (trimmed_end(s) + after) && forall|i: int|
                0 <= i < after.len() ==> white_space(#[trigger] after[i]),
    decreases s.len(),
{
    if s.len() > 0 && white_space(s.last()) {
        let rest = s.drop_last();
        end_is_blank(rest);
        let inner = choose|inner: Seq<char>|
            rest == #[trigger] (trimmed_end(rest) + inner) && forall|i: int|
                0 <= i < inner.len() ==> white_space(#[trigger] inner[i]);
        let after = inner.push(s.last());
        assert(rest.push(s.last()) =~= s);
        assert((trimmed_end(rest) + inner).push(s.last()) =~= trimmed_end(rest) + after);
        assert(s == trimmed_end(s) + after);
        assert forall|i: int| 0 <= i < after.len() implies white_space(#[trigger] after[i]) by {
            if i < inner.len() {
                assert(after[i] == inner[i]);
            }
        }
    } else {
        assert(s =~= trimmed_end(s) + Seq::<char>::empty());
    }
}

/// A text without blanks is one word, and an empty text is none.
pub proof fn text_without_blanks_is_one_word(s: Seq<char>, blanks: Blanks)
    requires
        forall|i: int| 0 <= i < s.len() ==> !blanks.holds(#[trigger] s[i]),
    ensures
        s.len() > 0 ==> words(s, blanks) == seq![s],
        s.len() == 0 ==> words(s, blanks) == Seq::<Seq<char>>::empty(),
    decreases s.len(),
{
    if s.len() == 1 {
        assert(words(s.drop_last(), blanks) =~= seq![]);
        assert(seq![s.last()] =~= s);
        assert(words(s, blanks) =~= seq![s]);
    } else if s.len() > 1 {
        let before = s.drop_last();
        text_without_blanks_is_one_word(before, blanks);
        assert(before.push(s.last()) =~= s);
        assert(seq![before].drop_last().push(s) =~= seq![s]);
    }
}

proof fn word_at_end_counts(s: Seq<char>, blanks: Blanks)
    requires
        s.len() > 0,
        !blanks.holds(s.last()),
    ensures
        words(s, blanks).len() > 0,
{
}

/// A blank parts the words before it from those behind it.
pub proof fn blank_parts_words(before: Seq<char>, blank: char, after: Seq<char>, blanks: Blanks)
    requires
        blanks.holds(blank),
    ensures
        words(before + seq![blank] + after, blanks) == words(before, blanks) + words(after, blanks),
    decreases after.len(),
{
    let all = before + seq![blank] + after;
    let first = words(before, blanks);
    if after.len() == 0 {
        assert(all.drop_last() =~= before);
        assert(all.last() == blank);
        assert(words(after, blanks) =~= Seq::<Seq<char>>::empty());
        assert(first + words(after, blanks) =~= first);
    } else {
        let shorter = after.drop_last();
        let second = words(shorter, blanks);
        let last = after.last();
        blank_parts_words(before, blank, shorter, blanks);
        assert(all.drop_last() =~= before + seq![blank] + shorter);
        assert(all.last() == last);
        if !blanks.holds(last) {
            if after.len() == 1 {
                assert(all[all.len() - 2] == blank);
                assert(second =~= Seq::<Seq<char>>::empty());
                assert(words(after, blanks) =~= seq![seq![last]]);
                assert((first + second).push(seq![last]) =~= first + seq![seq![last]]);
            } else {
                assert(all[all.len() - 2] == after[after.len() - 2]);
                assert(shorter.last() == after[after.len() - 2]);
                if blanks.holds(shorter.last()) {
                    assert((first + second).push(seq![last]) =~= first + second.push(seq![last]));
                } else {
                    word_at_end_counts(shorter, blanks);
                    let word = second.last().push(last);
                    assert((first + second).last() == second.last());
                    assert((first + second).drop_last().push(word) =~= first
                        + second.drop_last().push(word));
                }
            }
        }
    }
}

/// The first line is what stands before the first line feed, without a carriage return directly
/// before that; a text without a line feed is one line as it is.
pub proof fn first_line_ends_at_line_feed(line: Seq<char>, rest: Seq<char>)
    requires
        forall|i: int| 0 <= i < line.len() ==> #[trigger] line[i] != '\n',
    ensures
        line.len() > 0 ==> first_line(line) == Some(line),
        first_line(Seq::<char>::empty()) is None,
        line.len() == 0 || line.last() != '\r' ==> first_line(line + seq!['\n'] + rest) == Some(
            line,
        ),
        first_line(line + seq!['\r', '\n'] + rest) == Some(line),
{
    line_end_is_behind(line, Seq::<char>::empty());
    assert(line + Seq::<char>::empty() =~= line);
    assert(line.take(line.len() as int) =~= line);
    let all = line + seq!['\n'] + rest;
    line_end_is_behind(line, seq!['\n'] + rest);
    assert(all =~= line + (seq!['\n'] + rest));
    assert(all.take(line.len() as int) =~= line);
    if line.len() > 0 {
        assert(all[line.len() - 1] == line.last());
    }
    let longer = line.push('\r');
    let whole = line + seq!['\r', '\n'] + rest;
    assert forall|i: int| 0 <= i < longer.len() implies #[trigger] longer[i] != '\n' by {
        if i < line.len() {
            assert(longer[i] == line[i]);
        }
    }
    line_end_is_behind(longer, seq!['\n'] + rest);
    assert(whole =~= longer + (seq!['\n'] + rest));
    assert(whole[line.len() as int] == '\r');
    assert(whole.take(line.len() as int) =~= line);
}

proof fn line_end_is_behind(line: Seq<char>, rest: Seq<char>)
    requires
        forall|i: int| 0 <= i < line.len() ==> #[trigger] line[i] != '\n',
        rest.len() > 0 ==> rest[0] == '\n',
    ensures
        line_end(line + rest) == line.len(),
    decreases line.len(),
{
    let all = line + rest;
    if line.len() == 0 {
        assert(all =~= rest);
    } else {
        assert(all[0] == line[0]);
        let shorter = line.drop_first();
        assert(all.drop_first() =~= shorter + rest);
        assert forall|i: int| 0 <= i < shorter.len() implies #[trigger] shorter[i] != '\n' by {
            assert(shorter[i] == line[i + 1]);
        }
        line_end_is_behind(shorter, rest);
    }
}

/// A number is written digit by digit, the highest first, without a leading zero.
pub proof fn decimal_grows_by_a_digit(n: nat, last: nat)
    requires
        last < 10,
    ensures
        n == 0 ==> decimal(10 * n + last) == seq![(48 + last) as char],
        n > 0 ==> decimal(10 * n + last) == decimal(n).push((48 + last) as char),
{
    assert((10 * n + last) / 10 == n);
    assert((10 * n + last) % 10 == last);
}

/// A text is within a limit if it has at least one byte and at most so many.
pub proof fn bounds_count_bytes(text: Seq<char>, limit: usize)
    ensures
        bounded(text, limit) <==> 1 <= encode_utf8(text).len() <= limit,
{
    encode_utf8_decode_utf8(text);
    if text.len() > 0 && encode_utf8(text).len() == 0 {
        encode_utf8_decode_utf8(Seq::<char>::empty());
        assert(encode_utf8(Seq::<char>::empty()) =~= encode_utf8(text));
    }
    if text.len() == 0 {
        assert(text =~= Seq::<char>::empty());
    }
}

/// A text occurs in another exactly if the other is that text with something around it.
pub proof fn occurring_is_standing_within(s: Seq<char>, needle: Seq<char>)
    ensures
        occurs(s, needle) <==> exists|before: Seq<char>, after: Seq<char>|
            s == #[trigger] (before + needle + after),
{
    if occurs(s, needle) {
        let at = choose|at: int| occurs_at(s, needle, at);
        let before = s.take(at);
        let after = s.skip(at + needle.len());
        assert forall|i: int| 0 <= i < s.len() implies s[i] == (before + needle + after)[i] by {
            if at <= i < at + needle.len() {
                assert(s.subrange(at, at + needle.len())[i - at] == s[i]);
            }
        }
        assert(s =~= before + needle + after);
    }
    if exists|before: Seq<char>, after: Seq<char>| s == #[trigger] (before + needle + after) {
        let (before, after) = choose|before: Seq<char>, after: Seq<char>|
            s == #[trigger] (before + needle + after);
        let at = before.len() as int;
        assert(s.subrange(at, at + needle.len()) =~= needle);
        assert(occurs_at(s, needle, at));
    }
}

/// Lowering turns the capitals of ASCII into their small letters and leaves every other character.
pub proof fn lowering_changes_ascii_capitals(s: Seq<char>, i: int)
    requires
        0 <= i < s.len(),
    ensures
        ascii_lowered(s).len() == s.len(),
        'A' <= s[i] <= 'Z' ==> ascii_lowered(s)[i] as int == s[i] as int + 32,
        !('A' <= s[i] <= 'Z') ==> ascii_lowered(s)[i] == s[i],
{
}

/// The texts of strings are those of each of them, in order, and that of a missing one is missing.
pub proof fn texts_are_those_of_each(list: Seq<String>, text: String, borrowed: &str)
    ensures
        texts(list).len() == list.len(),
        forall|i: int| 0 <= i < list.len() ==> #[trigger] texts(list)[i] == list[i]@,
        optional_text(Some(text)) == Some(text@),
        optional_text(None) is None,
        optional_str(Some(borrowed)) == Some(borrowed@),
        optional_str(None) is None,
{
}

} // verus!
