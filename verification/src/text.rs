//! Text primitives: whitespace handling, number formatting and parsing, and
//! the few `String` operations the rest of the library is built from.

use vstd::prelude::*;

verus! {

/// `String::push`: appends one character at the end and changes nothing else.
pub assume_specification[ String::push ](s: &mut String, c: char)
    ensures
        final(s)@ == old(s)@.push(c),
;

/// The name of what `str::to_lowercase` returns.
pub uninterp spec fn lowercase(s: Seq<char>) -> Seq<char>;

/// `str::to_lowercase`: the Unicode lowercase equivalent of the text. For text
/// made of ASCII characters alone that is the ASCII lowercase equivalent,
/// character by character.
#[verifier::external_body]
pub(crate) fn to_lowercase(s: &str) -> (r: String)
    ensures
        r@ == lowercase(s@),
        vstd::utf8::is_ascii_chars(s@) ==> r@ == s@.map_values(|c: char| ascii_lower(c)),
{
    s.to_lowercase()
}

/// The ASCII lowercase equivalent of a character.
pub open spec fn ascii_lower(c: char) -> char {
    if 'A' <= c && c <= 'Z' {
        ((c as u32 + 32) as u32) as char
    } else {
        c
    }
}

/// `std::str::from_utf8`: the text that the bytes encode, if they are valid
/// UTF-8.
#[verifier::external_body]
pub(crate) fn utf8_text(bytes: &[u8]) -> (r: Option<&str>)
    ensures
        r is Some <==> vstd::utf8::valid_utf8(bytes@),
        r matches Some(s) ==> s@ == vstd::utf8::decode_utf8(bytes@),
{
    std::str::from_utf8(bytes).ok()
}

/// The name of what `String::from_utf8_lossy` returns.
pub uninterp spec fn lossy(bytes: Seq<u8>) -> Seq<char>;

/// `String::from_utf8_lossy`: the text that the bytes encode, with what is not
/// valid UTF-8 replaced. Bytes that are valid UTF-8 are decoded as they are.
#[verifier::external_body]
pub(crate) fn lossy_text(bytes: &[u8]) -> (r: String)
    ensures
        r@ == lossy(bytes@),
        vstd::utf8::valid_utf8(bytes@) ==> r@ == vstd::utf8::decode_utf8(bytes@),
{
    String::from_utf8_lossy(bytes).into_owned()
}

/// Whether two texts hold the same characters.
pub fn same_text(a: &str, b: &str) -> (r: bool)
    ensures
        r == (a@ == b@),
{
    let a = a.to_string();
    let b = b.to_string();
    a == b
}

/// The characters of a text, in order.
pub fn chars_of(s: &str) -> (r: Vec<char>)
    ensures
        r@ == s@,
{
    let mut out: Vec<char> = Vec::new();
    for c in it: s.chars()
        invariant
            out@ == s@.take(it.index()),
            it.seq() == s@,
    {
        out.push(c);
    }
    assert(s@.take(s@.len() as int) == s@);
    out
}

/// The text made of `chars[from..to]`.
pub fn text_of(chars: &Vec<char>, from: usize, to: usize) -> (r: String)
    requires
        from <= to <= chars@.len(),
    ensures
        r@ == chars@.subrange(from as int, to as int),
{
    let mut out = String::new();
    let mut i: usize = from;
    while i < to
        invariant
            from <= i <= to <= chars@.len(),
            out@ == chars@.subrange(from as int, i as int),
        decreases to - i,
    {
        out.push(chars[i]);
        proof {
            assert(chars@.subrange(from as int, i + 1) == chars@.subrange(from as int, i as int).push(
                chars@[i as int],
            ));
        }
        i += 1;
    }
    out
}

/// The text `a` followed by the text `b`.
pub fn joined(a: &str, b: &str) -> (r: String)
    ensures
        r@ == a@ + b@,
{
    let mut out = a.to_string();
    out.append(b);
    out
}

/// The characters of a text, if there is one.
pub open spec fn maybe(s: Option<String>) -> Option<Seq<char>> {
    match s {
        Some(s) => Some(s@),
        None => None,
    }
}

/// The characters of each text of a list.
pub open spec fn texts(v: Seq<String>) -> Seq<Seq<char>> {
    v.map_values(|s: String| s@)
}

/// The texts of a list one after another, with `separator` between them.
pub open spec fn join(parts: Seq<Seq<char>>, separator: Seq<char>) -> Seq<char>
    decreases parts.len(),
{
    if parts.len() == 0 {
        Seq::empty()
    } else if parts.len() == 1 {
        parts[0]
    } else {
        join(parts.drop_last(), separator) + separator + parts.last()
    }
}

/// The texts of a list one after another, with `separator` between them.
pub fn join_texts(parts: &Vec<String>, separator: &str) -> (r: String)
    ensures
        r@ == join(texts(parts@), separator@),
{
    let mut out = String::new();
    let mut i: usize = 0;
    let ghost all = texts(parts@);
    while i < parts.len()
        invariant
            i <= parts@.len(),
            all == texts(parts@),
            out@ == join(all.take(i as int), separator@),
        decreases parts@.len() - i,
    {
        if i > 0 {
            out.append(separator);
        }
        out.append(parts[i].as_str());
        proof {
            assert(all.take(i + 1).drop_last() == all.take(i as int));
            assert(all.take(i + 1).last() == parts@[i as int]@);
        }
        i += 1;
    }
    assert(all.take(all.len() as int) == all);
    out
}

// Whitespace

/// The Unicode `White_Space` property.
pub open spec fn is_space(c: char) -> bool {
    let u = c as u32;
    ||| 0x09 <= u <= 0x0d
    ||| u == 0x20
    ||| u == 0x85
    ||| u == 0xa0
    ||| u == 0x1680
    ||| 0x2000 <= u <= 0x200a
    ||| u == 0x2028
    ||| u == 0x2029
    ||| u == 0x202f
    ||| u == 0x205f
    ||| u == 0x3000
}

/// Whether a character has the Unicode `White_Space` property.
pub fn whitespace(c: char) -> (r: bool)
    ensures
        r == is_space(c),
{
    let u: u32 = c as u32;
    (0x09 <= u && u <= 0x0d) || u == 0x20 || u == 0x85 || u == 0xa0 || u == 0x1680 || (0x2000 <= u
        && u <= 0x200a) || u == 0x2028 || u == 0x2029 || u == 0x202f || u == 0x205f || u == 0x3000
}

/// A text without its leading whitespace.
pub open spec fn trim_start(s: Seq<char>) -> Seq<char>
    decreases s.len(),
{
    if s.len() > 0 && is_space(s[0]) {
        trim_start(s.drop_first())
    } else {
        s
    }
}

/// A text without its trailing whitespace.
pub open spec fn trim_end(s: Seq<char>) -> Seq<char>
    decreases s.len(),
{
    if s.len() > 0 && is_space(s.last()) {
        trim_end(s.drop_last())
    } else {
        s
    }
}

/// A text without leading and trailing whitespace.
pub open spec fn trim(s: Seq<char>) -> Seq<char> {
    trim_end(trim_start(s))
}

/// The number of characters before the first whitespace character.
pub open spec fn word_len(s: Seq<char>) -> nat
    decreases s.len(),
{
    if s.len() > 0 && !is_space(s[0]) {
        1 + word_len(s.drop_first())
    } else {
        0
    }
}

proof fn lemma_trim_start_len(s: Seq<char>)
    ensures
        trim_start(s).len() <= s.len(),
        trim_start(s) == s.skip(s.len() - trim_start(s).len()),
        trim_start(s).len() > 0 ==> !is_space(trim_start(s)[0]),
    decreases s.len(),
{
    if s.len() > 0 && is_space(s[0]) {
        lemma_trim_start_len(s.drop_first());
        let t = trim_start(s.drop_first());
        assert(s.drop_first().skip(s.drop_first().len() - t.len()) == s.skip(s.len() - t.len()));
    } else {
        assert(s.skip(0) == s);
    }
}

proof fn lemma_word_len(s: Seq<char>)
    ensures
        word_len(s) <= s.len(),
        s.len() > 0 && !is_space(s[0]) ==> word_len(s) > 0,
    decreases s.len(),
{
    if s.len() > 0 && !is_space(s[0]) {
        lemma_word_len(s.drop_first());
    }
}

/// The maximal runs of non-whitespace characters of a text, in order.
pub open spec fn words(s: Seq<char>) -> Seq<Seq<char>>
    decreases s.len(),
    via words_decreases
{
    let t = trim_start(s);
    if t.len() == 0 {
        Seq::empty()
    } else {
        seq![t.take(word_len(t) as int)] + words(t.skip(word_len(t) as int))
    }
}

#[via_fn]
proof fn words_decreases(s: Seq<char>) {
    let t = trim_start(s);
    lemma_trim_start_len(s);
    lemma_word_len(t);
}

/// The text without leading and trailing whitespace.
pub fn trimmed(s: &str) -> (r: String)
    ensures
        r@ == trim(s@),
{
    let chars = chars_of(s);
    let mut from: usize = 0;
    assert(chars@.skip(0) == chars@);
    while from < chars.len() && whitespace(chars[from])
        invariant
            from <= chars@.len(),
            trim_start(chars@) == trim_start(chars@.skip(from as int)),
        decreases chars@.len() - from,
    {
        assert(chars@.skip(from as int).drop_first() == chars@.skip(from + 1));
        from += 1;
    }
    assert(trim_start(chars@) == chars@.skip(from as int));
    let mut to: usize = chars.len();
    assert(chars@.subrange(from as int, to as int) == chars@.skip(from as int));
    while from < to && whitespace(chars[to - 1])
        invariant
            from <= to <= chars@.len(),
            trim(chars@) == trim_end(chars@.subrange(from as int, to as int)),
        decreases to,
    {
        assert(chars@.subrange(from as int, to as int).drop_last() == chars@.subrange(
            from as int,
            to - 1,
        ));
        to -= 1;
    }
    text_of(&chars, from, to)
}

/// The words of a text, in order.
pub fn split_words(s: &str) -> (r: Vec<String>)
    ensures
        r@.map_values(|w: String| w@) == words(s@),
{
    let chars = chars_of(s);
    let mut out: Vec<String> = Vec::new();
    let mut at: usize = 0;
    proof {
        assert(chars@.skip(0) == chars@);
        assert(out@.map_values(|w: String| w@) + words(chars@) == words(chars@));
    }
    loop
        invariant
            at <= chars@.len(),
            chars@ == s@,
            words(s@) == out@.map_values(|w: String| w@) + words(chars@.skip(at as int)),
        decreases chars@.len() - at,
    {
        let ghost rest = chars@.skip(at as int);
        let mut from: usize = at;
        while from < chars.len() && whitespace(chars[from])
            invariant
                at <= from <= chars@.len(),
                trim_start(rest) == trim_start(chars@.skip(from as int)),
            decreases chars@.len() - from,
        {
            assert(chars@.skip(from as int).drop_first() == chars@.skip(from + 1));
            from += 1;
        }
        let ghost t = chars@.skip(from as int);
        assert(trim_start(rest) == t);
        if from == chars.len() {
            proof {
                assert(words(rest) == Seq::<Seq<char>>::empty());
                assert(out@.map_values(|w: String| w@) + Seq::<Seq<char>>::empty()
                    == out@.map_values(|w: String| w@));
            }
            return out;
        }
        let mut to: usize = from;
        while to < chars.len() && !whitespace(chars[to])
            invariant
                from <= to <= chars@.len(),
                t == chars@.skip(from as int),
                word_len(t) == (to - from) + word_len(chars@.skip(to as int)),
            decreases chars@.len() - to,
        {
            assert(chars@.skip(to as int).drop_first() == chars@.skip(to + 1));
            to += 1;
        }
        proof {
            lemma_word_len(t);
        }
        let word = text_of(&chars, from, to);
        let ghost before = out@.map_values(|w: String| w@);
        out.push(word);
        proof {
            assert(t.take(word_len(t) as int) == chars@.subrange(from as int, to as int));
            assert(t.skip(word_len(t) as int) == chars@.skip(to as int));
            assert(out@.map_values(|w: String| w@) == before.push(word@));
            assert(before + (seq![word@] + words(chars@.skip(to as int))) == before.push(word@)
                + words(chars@.skip(to as int)));
        }
        at = to;
    }
}

// Numbers

/// The decimal digit that stands for `d`.
pub open spec fn digit(d: nat) -> char {
    ((48 + d) as u32) as char
}

/// The decimal digits of `n`, most significant first, without leading zeros.
pub open spec fn decimal(n: nat) -> Seq<char>
    decreases n,
{
    if n < 10 {
        seq![digit(n)]
    } else {
        decimal(n / 10).push(digit(n % 10))
    }
}

/// The lowercase hexadecimal digit that stands for `d`.
pub open spec fn hex_digit(d: nat) -> char {
    if d < 10 {
        ((48 + d) as u32) as char
    } else {
        ((87 + d) as u32) as char
    }
}

/// The lowercase hexadecimal digits of `n`, most significant first, without
/// leading zeros.
pub open spec fn lower_hex(n: nat) -> Seq<char>
    decreases n,
{
    if n < 16 {
        seq![hex_digit(n)]
    } else {
        lower_hex(n / 16).push(hex_digit(n % 16))
    }
}

/// Different numbers have different hexadecimal digits.
pub proof fn lemma_lower_hex_injective(a: nat, b: nat)
    ensures
        lower_hex(a) == lower_hex(b) ==> a == b,
    decreases a,
{
    let x = lower_hex(a);
    let y = lower_hex(b);
    if x == y {
        lemma_lower_hex_len(a);
        lemma_lower_hex_len(b);
        if a >= 16 && b >= 16 {
            assert(x.drop_last() =~= lower_hex(a / 16));
            assert(y.drop_last() =~= lower_hex(b / 16));
            lemma_lower_hex_injective(a / 16, b / 16);
            assert(x.last() == hex_digit(a % 16));
            assert(y.last() == hex_digit(b % 16));
        } else if a < 16 && b < 16 {
            assert(x[0] == hex_digit(a));
            assert(y[0] == hex_digit(b));
        }
    }
}

proof fn lemma_lower_hex_len(n: nat)
    ensures
        lower_hex(n).len() >= 1,
        lower_hex(n).len() == 1 <==> n < 16,
    decreases n,
{
    if n >= 16 {
        lemma_lower_hex_len(n / 16);
    }
}

fn digit_char(d: u8) -> (c: char)
    requires
        d < 10,
    ensures
        c == digit(d as nat),
{
    (48 + d) as char
}

fn hex_digit_char(d: u8) -> (c: char)
    requires
        d < 16,
    ensures
        c == hex_digit(d as nat),
{
    if d < 10 {
        (48 + d) as char
    } else {
        (87 + d) as char
    }
}

/// `n` in decimal.
pub fn decimal_text(n: u64) -> (r: String)
    ensures
        r@ == decimal(n as nat),
    decreases n,
{
    if n < 10 {
        let mut out = String::new();
        out.push(digit_char(n as u8));
        assert(out@ == seq![digit(n as nat)]);
        out
    } else {
        let mut out = decimal_text(n / 10);
        out.push(digit_char((n % 10) as u8));
        out
    }
}

/// `n` in lowercase hexadecimal.
pub fn lower_hex_text(n: u128) -> (r: String)
    ensures
        r@ == lower_hex(n as nat),
    decreases n,
{
    if n < 16 {
        let mut out = String::new();
        out.push(hex_digit_char(n as u8));
        assert(out@ == seq![hex_digit(n as nat)]);
        out
    } else {
        let mut out = lower_hex_text(n / 16);
        out.push(hex_digit_char((n % 16) as u8));
        out
    }
}

/// Whether a character is a decimal digit.
pub open spec fn is_digit(c: char) -> bool {
    '0' <= c && c <= '9'
}

/// The number that a run of decimal digits denotes.
pub open spec fn digits_value(s: Seq<char>) -> nat
    decreases s.len(),
{
    if s.len() == 0 {
        0
    } else {
        digits_value(s.drop_last()) * 10 + (s.last() as u32 - 48) as nat
    }
}

/// Whether every character is a decimal digit.
pub open spec fn all_digits(s: Seq<char>) -> bool {
    forall|i: int| 0 <= i < s.len() ==> is_digit(#[trigger] s[i])
}

/// A text without one leading `+`.
pub open spec fn unsigned_digits(s: Seq<char>) -> Seq<char> {
    if s.len() > 0 && s[0] == '+' {
        s.drop_first()
    } else {
        s
    }
}

/// The size a text denotes: an optional `+`, then at least one decimal digit,
/// with a value that fits. Anything else denotes none.
pub open spec fn size_value(s: Seq<char>) -> Option<usize> {
    let d = unsigned_digits(s);
    if d.len() > 0 && all_digits(d) && digits_value(d) <= usize::MAX {
        Some(digits_value(d) as usize)
    } else {
        None
    }
}

proof fn lemma_digits_monotone(s: Seq<char>, i: int)
    requires
        0 <= i <= s.len(),
        all_digits(s),
    ensures
        digits_value(s.take(i)) <= digits_value(s),
    decreases s.len() - i,
{
    if i < s.len() {
        lemma_digits_monotone(s, i + 1);
        assert(s.take(i + 1).drop_last() == s.take(i));
        assert(is_digit(s[i]));
    } else {
        assert(s.take(i) == s);
    }
}

/// The size a text denotes, if any.
pub fn parse_size(s: &str) -> (r: Option<usize>)
    ensures
        r == size_value(s@),
{
    let chars = chars_of(s);
    let start: usize = if chars.len() > 0 && chars[0] == '+' {
        1
    } else {
        0
    };
    let ghost d = unsigned_digits(s@);
    assert(d == chars@.skip(start as int));
    if start == chars.len() {
        return None;
    }
    let mut value: usize = 0;
    let mut i: usize = start;
    assert(d.take(0) == Seq::<char>::empty());
    while i < chars.len()
        invariant
            start <= i <= chars@.len(),
            d == chars@.skip(start as int),
            d == unsigned_digits(s@),
            forall|k: int| 0 <= k < i - start ==> is_digit(#[trigger] d[k]),
            value == digits_value(d.take(i - start)),
        decreases chars@.len() - i,
    {
        let c = chars[i];
        let ghost k = i - start;
        assert(d[k] == c);
        if !('0' <= c && c <= '9') {
            assert(!is_digit(d[k]));
            return None;
        }
        let v: usize = (c as u32 - 48) as usize;
        proof {
            assert(d.take(k + 1).drop_last() == d.take(k));
            assert(d.take(k + 1).last() == c);
        }
        match value.checked_mul(10) {
            None => {
                proof {
                    if all_digits(d) {
                        lemma_digits_monotone(d, k + 1);
                    }
                }
                return None;
            },
            Some(m) => match m.checked_add(v) {
                None => {
                    proof {
                        if all_digits(d) {
                            lemma_digits_monotone(d, k + 1);
                        }
                    }
                    return None;
                },
                Some(n) => {
                    value = n;
                },
            },
        }
        i += 1;
    }
    assert(d.take(d.len() as int) == d);
    Some(value)
}

// Prefixes

/// The rest of a text after `prefix`, if it starts with it.
pub open spec fn after_prefix(s: Seq<char>, prefix: Seq<char>) -> Option<Seq<char>> {
    if prefix.is_prefix_of(s) {
        Some(s.skip(prefix.len() as int))
    } else {
        None
    }
}

/// The rest of a text after `prefix`, if it starts with it.
pub fn strip_prefix(s: &str, prefix: &str) -> (r: Option<String>)
    ensures
        r is Some <==> after_prefix(s@, prefix@) is Some,
        r matches Some(rest) ==> Some(rest@) == after_prefix(s@, prefix@),
{
    let chars = chars_of(s);
    let start = chars_of(prefix);
    if start.len() > chars.len() {
        return None;
    }
    let mut i: usize = 0;
    while i < start.len()
        invariant
            i <= start@.len() <= chars@.len(),
            start@ == prefix@,
            chars@ == s@,
            forall|k: int| 0 <= k < i ==> chars@[k] == start@[k],
        decreases start@.len() - i,
    {
        if chars[i] != start[i] {
            proof {
                assert(s@.take(prefix@.len() as int)[i as int] != prefix@[i as int]);
            }
            return None;
        }
        i += 1;
    }
    proof {
        assert(prefix@ == s@.take(prefix@.len() as int));
        assert(s@.skip(prefix@.len() as int) == chars@.subrange(i as int, chars@.len() as int));
    }
    Some(text_of(&chars, i, chars.len()))
}

// Laws

/// Decimal digits are positional: a further digit multiplies by ten what came
/// before it, and adds what it stands for. Nothing but the ten digits is a
/// digit.
pub proof fn law_digits_are_positional(s: Seq<char>, c: char)
    ensures
        digits_value(Seq::empty()) == 0,
        is_digit(c) <==> c == '0' || c == '1' || c == '2' || c == '3' || c == '4' || c == '5' || c
            == '6' || c == '7' || c == '8' || c == '9',
        c == '0' ==> digits_value(s.push(c)) == 10 * digits_value(s),
        c == '1' ==> digits_value(s.push(c)) == 10 * digits_value(s) + 1,
        c == '2' ==> digits_value(s.push(c)) == 10 * digits_value(s) + 2,
        c == '3' ==> digits_value(s.push(c)) == 10 * digits_value(s) + 3,
        c == '4' ==> digits_value(s.push(c)) == 10 * digits_value(s) + 4,
        c == '5' ==> digits_value(s.push(c)) == 10 * digits_value(s) + 5,
        c == '6' ==> digits_value(s.push(c)) == 10 * digits_value(s) + 6,
        c == '7' ==> digits_value(s.push(c)) == 10 * digits_value(s) + 7,
        c == '8' ==> digits_value(s.push(c)) == 10 * digits_value(s) + 8,
        c == '9' ==> digits_value(s.push(c)) == 10 * digits_value(s) + 9,
{
    assert(s.push(c).drop_last() =~= s);
    assert(s.push(c).last() == c);
}

/// The decimal digits of a number denote it, and start with no zero but that of
/// zero itself.
pub proof fn lemma_decimal_reads_back(n: nat)
    ensures
        decimal(n).len() > 0,
        all_digits(decimal(n)),
        digits_value(decimal(n)) == n,
        n > 0 ==> decimal(n)[0] != '0',
        n < 10 <==> decimal(n).len() == 1,
    decreases n,
{
    let d = decimal(n);
    if n < 10 {
        assert(d.drop_last() =~= Seq::empty());
        assert(digits_value(d.drop_last()) == 0);
        assert(d.last() == digit(n));
    } else {
        lemma_decimal_reads_back(n / 10);
        assert(d.drop_last() =~= decimal(n / 10));
        assert(d.last() == digit(n % 10));
        assert forall|i: int| 0 <= i < d.len() implies is_digit(#[trigger] d[i]) by {
            if i < d.len() - 1 {
                assert(d[i] == decimal(n / 10)[i]);
            }
        }
    }
}

/// A number in decimal reads back as the number, and starts with no zero but
/// that of zero itself.
pub proof fn law_decimal_reads_back(n: u64, r: String)
    requires
        call_ensures(decimal_text, (n,), r),
    ensures
        r@.len() > 0,
        all_digits(r@),
        digits_value(r@) == n,
        n > 0 ==> r@[0] != '0',
        n == 0 ==> r@.len() == 1,
{
    lemma_decimal_reads_back(n as nat);
}

/// What a hexadecimal digit stands for, of either case.
pub open spec fn hex_digit_value(c: char) -> nat {
    if '0' <= c && c <= '9' {
        (c as u32 - '0' as u32) as nat
    } else if 'a' <= c && c <= 'f' {
        (c as u32 - 'a' as u32 + 10) as nat
    } else {
        (c as u32 - 'A' as u32 + 10) as nat
    }
}

/// The number that a run of hexadecimal digits denotes.
pub open spec fn hex_digits_value(s: Seq<char>) -> nat
    decreases s.len(),
{
    if s.len() == 0 {
        0
    } else {
        hex_digits_value(s.drop_last()) * 16 + hex_digit_value(s.last())
    }
}

/// The hexadecimal digits of a number denote it.
pub proof fn lemma_lower_hex_reads_back(n: nat)
    ensures
        lower_hex(n).len() > 0,
        hex_digits_value(lower_hex(n)) == n,
        forall|i: int|
            0 <= i < lower_hex(n).len() ==> {
                let c = #[trigger] lower_hex(n)[i];
                is_digit(c) || ('a' <= c && c <= 'f')
            },
        n > 0 ==> lower_hex(n)[0] != '0',
        n == 0 ==> lower_hex(n).len() == 1,
    decreases n,
{
    let d = lower_hex(n);
    if n < 16 {
        assert(d.drop_last() =~= Seq::empty());
        assert(hex_digits_value(d.drop_last()) == 0);
        assert(d.last() == hex_digit(n));
    } else {
        lemma_lower_hex_reads_back(n / 16);
        assert(d.drop_last() =~= lower_hex(n / 16));
        assert(d.last() == hex_digit(n % 16));
        assert forall|i: int| 0 <= i < d.len() implies {
            let c = #[trigger] d[i];
            is_digit(c) || ('a' <= c && c <= 'f')
        } by {
            if i < d.len() - 1 {
                assert(d[i] == lower_hex(n / 16)[i]);
            }
        }
    }
}

/// A number in hexadecimal reads back as the number. Its digits are in
/// lowercase, and start with no zero but that of zero itself.
pub proof fn law_hexadecimal_reads_back(n: u128, r: String)
    requires
        call_ensures(lower_hex_text, (n,), r),
    ensures
        r@.len() > 0,
        hex_digits_value(r@) == n,
        forall|i: int|
            0 <= i < r@.len() ==> {
                let c = #[trigger] r@[i];
                is_digit(c) || ('a' <= c && c <= 'f')
            },
        n > 0 ==> r@[0] != '0',
        n == 0 ==> r@.len() == 1,
{
    lemma_lower_hex_reads_back(n as nat);
}

/// A text denotes a size exactly if it is a run of digits, with or without a
/// `+` before it, whose number fits; then it denotes that number.
pub proof fn law_sizes_are_read(s: &str, r: Option<usize>, digits: Seq<char>)
    requires
        call_ensures(parse_size, (s,), r),
        s@ == digits || s@ == seq!['+'] + digits,
        digits.len() > 0 ==> digits[0] != '+',
    ensures
        r is Some <==> digits.len() > 0 && all_digits(digits) && digits_value(digits) <= usize::MAX,
        r matches Some(n) ==> n == digits_value(digits),
{
    assert((seq!['+'] + digits).drop_first() =~= digits);
    assert(unsigned_digits(s@) =~= digits);
}

/// Whether all characters are whitespace.
pub open spec fn all_space(s: Seq<char>) -> bool {
    forall|i: int| 0 <= i < s.len() ==> is_space(#[trigger] s[i])
}

/// Whether no character is whitespace.
pub open spec fn no_space(s: Seq<char>) -> bool {
    forall|i: int| 0 <= i < s.len() ==> !is_space(#[trigger] s[i])
}

/// Blanks, tabs and the ends of lines are whitespace. Visible ASCII characters
/// are not.
pub proof fn law_whitespace(c: char, r: bool)
    requires
        call_ensures(whitespace, (c,), r),
    ensures
        c == ' ' || c == '\t' || c == '\r' || c == '\n' ==> r,
        '!' <= c && c <= '~' ==> !r,
        r == is_space(c),
{
}

proof fn lemma_trim_end(s: Seq<char>)
    ensures
        trim_end(s).len() <= s.len(),
        trim_end(s) == s.take(trim_end(s).len() as int),
        all_space(s.skip(trim_end(s).len() as int)),
        trim_end(s).len() > 0 ==> !is_space(trim_end(s).last()),
    decreases s.len(),
{
    if s.len() > 0 && is_space(s.last()) {
        lemma_trim_end(s.drop_last());
        let t = trim_end(s.drop_last());
        let n = t.len() as int;
        assert(s.drop_last().take(n) =~= s.take(n));
        assert forall|i: int| 0 <= i < s.skip(n).len() implies is_space(#[trigger] s.skip(n)[i]) by {
            if i < s.skip(n).len() - 1 {
                assert(s.skip(n)[i] == s.drop_last().skip(n)[i]);
            }
        }
    } else {
        assert(s.take(s.len() as int) =~= s);
    }
}

proof fn lemma_trim_start(s: Seq<char>)
    ensures
        trim_start(s).len() <= s.len(),
        trim_start(s) == s.skip(s.len() - trim_start(s).len()),
        all_space(s.take(s.len() - trim_start(s).len())),
        trim_start(s).len() > 0 ==> !is_space(trim_start(s)[0]),
    decreases s.len(),
{
    lemma_trim_start_len(s);
    if s.len() > 0 && is_space(s[0]) {
        lemma_trim_start(s.drop_first());
        let n = s.len() - trim_start(s).len();
        assert forall|i: int| 0 <= i < n implies is_space(#[trigger] s.take(n)[i]) by {
            if i > 0 {
                assert(s.take(n)[i] == s.drop_first().take(n - 1)[i - 1]);
            }
        }
    }
}

/// What trimming takes away is whitespace on either side, and what it leaves
/// neither starts nor ends with whitespace.
pub proof fn law_trimming(s: &str, r: String) -> (around: (Seq<char>, Seq<char>))
    requires
        call_ensures(trimmed, (s,), r),
    ensures
        s@ == around.0 + r@ + around.1,
        all_space(around.0),
        all_space(around.1),
        r@.len() > 0 ==> !is_space(r@[0]) && !is_space(r@.last()),
{
    let t = trim_start(s@);
    lemma_trim_start(s@);
    lemma_trim_end(t);
    let before = s@.take(s@.len() - t.len());
    let after = t.skip(r@.len() as int);
    assert(s@ =~= before + r@ + after);
    if r@.len() > 0 {
        assert(r@[0] == t[0]);
    }
    (before, after)
}

/// A text between whitespace is what trimming leaves, if it neither starts nor
/// ends with whitespace.
pub proof fn lemma_trim_is(before: Seq<char>, s: Seq<char>, after: Seq<char>)
    requires
        all_space(before),
        all_space(after),
        s.len() > 0 ==> !is_space(s[0]) && !is_space(s.last()),
    ensures
        trim(before + s + after) == s,
    decreases before.len() + after.len(),
{
    let all = before + s + after;
    if before.len() > 0 {
        assert(is_space(before[0]));
        assert(all[0] == before[0]);
        assert(all.drop_first() =~= before.drop_first() + s + after);
        assert forall|i: int| 0 <= i < before.drop_first().len() implies is_space(
            #[trigger] before.drop_first()[i],
        ) by {
            assert(is_space(before[i + 1]));
        }
        lemma_trim_is(before.drop_first(), s, after);
    } else {
        assert(all =~= s + after);
        if s.len() > 0 {
            assert(all[0] == s[0]);
            assert(trim_start(all) == all);
            lemma_trim_end_is(s, after);
        } else {
            assert(all =~= after);
            lemma_trim_start(after);
            let t = trim_start(after);
            if t.len() > 0 {
                assert(t[0] == after[after.len() - t.len()]);
                assert(is_space(after[after.len() - t.len()]));
            }
            assert(trim(all) =~= s);
        }
    }
}

/// Nothing is left of a text exactly if it is whitespace.
pub proof fn lemma_trim_empty(s: Seq<char>)
    requires
        trim(s).len() == 0,
    ensures
        all_space(s),
{
    let t = trim_start(s);
    lemma_trim_start(s);
    lemma_trim_end(t);
    assert(t.skip(0) =~= t);
    assert forall|i: int| 0 <= i < s.len() implies is_space(#[trigger] s[i]) by {
        let n = s.len() - t.len();
        if i < n {
            assert(s[i] == s.take(n)[i]);
        } else {
            assert(s[i] == t[i - n]);
        }
    }
}

proof fn lemma_trim_end_is(s: Seq<char>, after: Seq<char>)
    requires
        all_space(after),
        s.len() > 0 ==> !is_space(s.last()),
    ensures
        trim_end(s + after) == s,
    decreases after.len(),
{
    let all = s + after;
    if after.len() > 0 {
        assert(is_space(after[after.len() - 1]));
        assert(all.last() == after.last());
        assert(all.drop_last() =~= s + after.drop_last());
        assert forall|i: int| 0 <= i < after.drop_last().len() implies is_space(
            #[trigger] after.drop_last()[i],
        ) by {
            assert(is_space(after[i]));
        }
        lemma_trim_end_is(s, after.drop_last());
    } else {
        assert(all =~= s);
    }
}

/// The first word of a text, up to whitespace, and the words after it.
pub proof fn lemma_first_word(word: Seq<char>, space: char, rest: Seq<char>)
    requires
        word.len() > 0,
        no_space(word),
        is_space(space),
    ensures
        words(word + seq![space] + rest) == seq![word] + words(rest),
{
    let s = word + seq![space] + rest;
    assert(s[0] == word[0]);
    assert(trim_start(s) == s);
    lemma_word_len_is(word, seq![space] + rest);
    assert(s =~= word + (seq![space] + rest));
    let n = word.len() as int;
    assert(s.take(n) =~= word);
    let tail = s.skip(n);
    assert(tail =~= seq![space] + rest);
    assert(words(tail) == words(rest)) by {
        assert(tail[0] == space);
        assert(tail.drop_first() =~= rest);
        assert(trim_start(tail) == trim_start(rest));
    }
}

proof fn lemma_word_len_is(word: Seq<char>, rest: Seq<char>)
    requires
        no_space(word),
        rest.len() > 0 ==> is_space(rest[0]),
    ensures
        word_len(word + rest) == word.len(),
    decreases word.len(),
{
    let s = word + rest;
    if word.len() > 0 {
        assert(!is_space(word[0]));
        assert(s[0] == word[0]);
        assert(s.drop_first() =~= word.drop_first() + rest);
        assert forall|i: int| 0 <= i < word.drop_first().len() implies !is_space(
            #[trigger] word.drop_first()[i],
        ) by {
            assert(!is_space(word[i + 1]));
        }
        lemma_word_len_is(word.drop_first(), rest);
    } else {
        assert(s =~= rest);
    }
}

/// A text without whitespace is one word.
pub proof fn lemma_single_word(word: Seq<char>)
    requires
        word.len() > 0,
        no_space(word),
    ensures
        words(word) == seq![word],
{
    assert(!is_space(word[0]));
    lemma_word_len_is(word, Seq::empty());
    assert(word + Seq::<char>::empty() =~= word);
    assert(word.take(word.len() as int) =~= word);
    let tail = word.skip(word.len() as int);
    assert(tail =~= Seq::empty());
    assert(words(tail) =~= Seq::empty());
    assert(words(word) =~= seq![word]);
}

/// A text is split at its whitespace: a word that is followed by whitespace is
/// the first word, and the others are the words of the rest. A text without
/// whitespace is one word, and whitespace at the front plays no part.
pub proof fn law_words(s: &str, r: Vec<String>, word: Seq<char>, space: char, rest: Seq<char>)
    requires
        call_ensures(split_words, (s,), r),
        no_space(word),
        is_space(space),
    ensures
        word.len() > 0 && s@ == word + seq![space] + rest ==> texts(r@) == seq![word] + words(rest),
        word.len() > 0 && s@ == word ==> texts(r@) == seq![word],
        s@ == seq![space] + rest ==> texts(r@) == words(rest),
        s@.len() == 0 ==> texts(r@).len() == 0,
{
    assert(r@.map_values(|w: String| w@) =~= texts(r@));
    if word.len() > 0 {
        lemma_first_word(word, space, rest);
        lemma_single_word(word);
    }
    let t = seq![space] + rest;
    assert(t.drop_first() =~= rest);
    assert(trim_start(t) == trim_start(rest));
}

/// What is left of a text is what follows the prefix, and nothing is left
/// exactly if the text does not start with it.
pub proof fn law_prefixes(s: &str, prefix: &str, r: Option<String>, rest: Seq<char>)
    requires
        call_ensures(strip_prefix, (s, prefix), r),
    ensures
        r matches Some(left) ==> s@ == prefix@ + left@,
        s@ == prefix@ + rest ==> (r matches Some(left) && left@ == rest),
{
    lemma_after_prefix(prefix@, rest);
    if prefix@.is_prefix_of(s@) {
        assert(s@ =~= prefix@ + s@.skip(prefix@.len() as int));
    }
}

/// What follows the prefix that a text was put after.
pub proof fn lemma_after_prefix(prefix: Seq<char>, rest: Seq<char>)
    ensures
        after_prefix(prefix + rest, prefix) == Some(rest),
{
    assert((prefix + rest).take(prefix.len() as int) =~= prefix);
    assert((prefix + rest).skip(prefix.len() as int) =~= rest);
}

/// A list of texts is written one after another, with the separator between any
/// two and nowhere else.
pub proof fn law_joining(parts: &Vec<String>, separator: &str, r: String, i: int)
    requires
        call_ensures(join_texts, (parts, separator), r),
        0 < i < parts@.len(),
    ensures
        r@ == join(texts(parts@).take(i), separator@) + separator@ + join(
            texts(parts@).skip(i),
            separator@,
        ),
        join(seq![parts@[i]@], separator@) == parts@[i]@,
{
    lemma_join_split(texts(parts@), separator@, i);
}

proof fn lemma_join_split(parts: Seq<Seq<char>>, separator: Seq<char>, i: int)
    requires
        0 < i < parts.len(),
    ensures
        join(parts, separator) == join(parts.take(i), separator) + separator + join(
            parts.skip(i),
            separator,
        ),
    decreases parts.len(),
{
    if i == parts.len() - 1 {
        assert(parts.take(i) =~= parts.drop_last());
        assert(parts.skip(i) =~= seq![parts.last()]);
    } else {
        let front = parts.drop_last();
        lemma_join_split(front, separator, i);
        assert(front.take(i) =~= parts.take(i));
        assert(parts.skip(i).drop_last() =~= front.skip(i));
        assert(parts.skip(i).last() == parts.last());
        assert(join(parts, separator) =~= join(parts.take(i), separator) + separator + join(
            parts.skip(i),
            separator,
        ));
    }
}

} // verus!
