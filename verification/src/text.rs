//! Text helpers: comparison, trimming, splitting and number formatting.

use vstd::prelude::*;
use vstd::string::{StrSliceExecFns, StringExecFns};

verus! {

/// The views of a sequence of executable values.
pub open spec fn views<T: View>(items: Seq<T>) -> Seq<T::V> {
    items.map_values(|item: T| item@)
}

/// The view of an optional executable value.
pub open spec fn opt_view<T: View>(item: Option<T>) -> Option<T::V> {
    match item {
        Some(value) => Some(value@),
        None => None,
    }
}

/// Strict lexicographic order on byte strings.
pub open spec fn bytes_lt(a: Seq<u8>, b: Seq<u8>) -> bool
    decreases a.len(),
{
    if b.len() == 0 {
        false
    } else if a.len() == 0 {
        true
    } else {
        a[0] < b[0] || (a[0] == b[0] && bytes_lt(a.drop_first(), b.drop_first()))
    }
}

/// The order of texts: lexicographic by the bytes of their UTF-8 encoding.
pub open spec fn text_lt(a: Seq<char>, b: Seq<char>) -> bool {
    bytes_lt(vstd::utf8::encode_utf8(a), vstd::utf8::encode_utf8(b))
}

/// How two texts compare.
#[derive(Clone, Copy, Debug, PartialEq, Eq, Structural)]
pub enum Order {
    Before,
    Same,
    After,
}

proof fn lemma_bytes_lt_trans(a: Seq<u8>, b: Seq<u8>, c: Seq<u8>)
    requires
        bytes_lt(a, b),
        bytes_lt(b, c),
    ensures
        bytes_lt(a, c),
    decreases a.len(),
{
    if a.len() > 0 && a[0] == b[0] && b[0] == c[0] {
        lemma_bytes_lt_trans(a.drop_first(), b.drop_first(), c.drop_first());
    }
}

proof fn lemma_bytes_lt_irreflexive(a: Seq<u8>)
    ensures
        !bytes_lt(a, a),
    decreases a.len(),
{
    if a.len() > 0 {
        lemma_bytes_lt_irreflexive(a.drop_first());
    }
}

/// The order of texts is irreflexive.
pub proof fn lemma_text_lt_irreflexive(a: Seq<char>)
    ensures
        !text_lt(a, a),
{
    lemma_bytes_lt_irreflexive(vstd::utf8::encode_utf8(a));
}

/// The order of texts is transitive.
pub proof fn lemma_text_lt_trans(a: Seq<char>, b: Seq<char>, c: Seq<char>)
    requires
        text_lt(a, b),
        text_lt(b, c),
    ensures
        text_lt(a, c),
{
    lemma_bytes_lt_trans(vstd::utf8::encode_utf8(a), vstd::utf8::encode_utf8(b), vstd::utf8::encode_utf8(c));
}

/// Two texts with the same encoding are the same text.
pub proof fn lemma_encoding_injective(a: Seq<char>, b: Seq<char>)
    requires
        vstd::utf8::encode_utf8(a) == vstd::utf8::encode_utf8(b),
    ensures
        a == b,
{
    vstd::utf8::encode_utf8_decode_utf8(a);
    vstd::utf8::encode_utf8_decode_utf8(b);
}

proof fn lemma_bytes_lt_total(a: Seq<u8>, b: Seq<u8>)
    requires
        a != b,
    ensures
        bytes_lt(a, b) || bytes_lt(b, a),
    decreases a.len(),
{
    if a.len() == 0 {
        assert(b.len() != 0) by {
            assert(b.len() == 0 ==> a =~= b);
        }
    } else if b.len() > 0 && a[0] == b[0] {
        assert(a.drop_first() != b.drop_first()) by {
            assert(a =~= seq![a[0]] + a.drop_first());
            assert(b =~= seq![b[0]] + b.drop_first());
        }
        lemma_bytes_lt_total(a.drop_first(), b.drop_first());
    }
}

/// Of two different texts one comes before the other.
pub proof fn lemma_text_lt_total(a: Seq<char>, b: Seq<char>)
    requires
        a != b,
    ensures
        text_lt(a, b) || text_lt(b, a),
{
    if vstd::utf8::encode_utf8(a) == vstd::utf8::encode_utf8(b) {
        lemma_encoding_injective(a, b);
    }
    lemma_bytes_lt_total(vstd::utf8::encode_utf8(a), vstd::utf8::encode_utf8(b));
}

/// Prefixes that agree do not take part in the order of two byte strings.
proof fn lemma_bytes_lt_skip(a: Seq<u8>, b: Seq<u8>, n: int)
    requires
        0 <= n <= a.len(),
        n <= b.len(),
        a.take(n) == b.take(n),
    ensures
        bytes_lt(a, b) == bytes_lt(a.skip(n), b.skip(n)),
    decreases n,
{
    if n == 0 {
        assert(a.skip(0) =~= a);
        assert(b.skip(0) =~= b);
    } else {
        assert(a[0] == a.take(n)[0] && b[0] == b.take(n)[0]);
        assert(a.drop_first().take(n - 1) =~= a.take(n).drop_first());
        assert(b.drop_first().take(n - 1) =~= b.take(n).drop_first());
        lemma_bytes_lt_skip(a.drop_first(), b.drop_first(), n - 1);
        assert(a.drop_first().skip(n - 1) =~= a.skip(n));
        assert(b.drop_first().skip(n - 1) =~= b.skip(n));
    }
}

/// Compares two texts.
pub fn compare(a: &str, b: &str) -> (order: Order)
    ensures
        order == Order::Before <==> text_lt(a@, b@),
        order == Order::Same <==> a@ == b@,
        order == Order::After <==> text_lt(b@, a@),
{
    let x = a.as_bytes();
    let y = b.as_bytes();
    let mut i: usize = 0;
    while i < x.len() && i < y.len() && x[i] == y[i]
        invariant
            i <= x@.len(),
            i <= y@.len(),
            x@.take(i as int) == y@.take(i as int),
        decreases x@.len() - i,
    {
        assert(x@.take(i + 1) =~= x@.take(i as int).push(x@[i as int]));
        assert(y@.take(i + 1) =~= y@.take(i as int).push(y@[i as int]));
        i += 1;
    }
    proof {
        lemma_bytes_lt_skip(x@, y@, i as int);
        lemma_bytes_lt_skip(y@, x@, i as int);
        lemma_bytes_lt_irreflexive(x@);
        if x@ == y@ {
            lemma_encoding_injective(a@, b@);
        }
    }
    if i < x.len() {
        if i < y.len() {
            if x[i] < y[i] {
                Order::Before
            } else {
                Order::After
            }
        } else {
            Order::After
        }
    } else if i < y.len() {
        Order::Before
    } else {
        assert(x@.take(i as int) =~= x@);
        assert(y@.take(i as int) =~= y@);
        Order::Same
    }
}

/// Whether two texts hold the same characters.
pub fn same_text(a: &str, b: &str) -> (same: bool)
    ensures
        same == (a@ == b@),
{
    matches!(compare(a, b), Order::Same)
}

/// Whether a character is white space: the Unicode property `White_Space`.
pub open spec fn is_white(c: char) -> bool {
    let u = c as u32;
    ||| 0x09 <= u <= 0x0d
    ||| u == 0x20
    ||| u == 0x85
    ||| u == 0xa0
    ||| u == 0x1680
    ||| 0x2000 <= u <= 0x200a
    ||| u == 0x2028
    ||| u == 0x2029
    ||| u == 0x202f
    ||| u == 0x205f
    ||| u == 0x3000
}

/// A text without its leading white space.
pub open spec fn trim_start(s: Seq<char>) -> Seq<char>
    decreases s.len(),
{
    if s.len() > 0 && is_white(s[0]) {
        trim_start(s.drop_first())
    } else {
        s
    }
}

/// A text without its trailing white space.
pub open spec fn trim_end(s: Seq<char>) -> Seq<char>
    decreases s.len(),
{
    if s.len() > 0 && is_white(s.last()) {
        trim_end(s.drop_last())
    } else {
        s
    }
}

/// A text without the white space around it.
pub open spec fn trimmed(s: Seq<char>) -> Seq<char> {
    trim_end(trim_start(s))
}

/// The number of characters before the first space, or all of them.
pub open spec fn before_space(s: Seq<char>) -> nat
    decreases s.len(),
{
    if s.len() == 0 || s[0] == ' ' {
        0
    } else {
        1 + before_space(s.drop_first())
    }
}

/// A text cut at its first space, which belongs to neither part; `None` without a space.
pub open spec fn cut_at_space(s: Seq<char>) -> Option<(Seq<char>, Seq<char>)> {
    let n = before_space(s) as int;
    if n < s.len() {
        Some((s.take(n), s.skip(n + 1)))
    } else {
        None
    }
}

/// The number of characters before the first white space, or all of them.
pub open spec fn word_len(s: Seq<char>) -> nat
    decreases s.len(),
{
    if s.len() == 0 || is_white(s[0]) {
        0
    } else {
        1 + word_len(s.drop_first())
    }
}

/// The maximal runs of characters that are not white space, in order.
pub open spec fn words(s: Seq<char>) -> Seq<Seq<char>>
    decreases s.len(),
{
    if s.len() == 0 {
        Seq::empty()
    } else if is_white(s[0]) {
        words(s.drop_first())
    } else {
        let n = word_len(s) as int;
        if n <= 0 || n > s.len() {
            Seq::empty()
        } else {
            seq![s.take(n)] + words(s.skip(n))
        }
    }
}

/// Whether a character is white space.
fn white(c: char) -> (r: bool)
    ensures
        r == is_white(c),
{
    let u: u32 = c as u32;
    (0x09 <= u && u <= 0x0d) || u == 0x20 || u == 0x85 || u == 0xa0 || u == 0x1680 || (0x2000 <= u
        && u <= 0x200a) || u == 0x2028 || u == 0x2029 || u == 0x202f || u == 0x205f || u == 0x3000
}

/// The characters of a text.
pub(crate) fn characters(s: &str) -> (chars: Vec<char>)
    ensures
        chars@ == s@,
{
    let mut chars: Vec<char> = Vec::new();
    for c in it: s.chars()
        invariant
            chars@ == it.seq().take(it.index()),
            it.seq() == s@,
    {
        chars.push(c);
        assert(it.seq().take(it.index() + 1) =~= it.seq().take(it.index()).push(c));
    }
    assert(s@.take(s@.len() as int) =~= s@);
    chars
}

proof fn lemma_trim_start_at(s: Seq<char>, n: int)
    requires
        0 <= n <= s.len(),
        forall|k: int| 0 <= k < n ==> is_white(s[k]),
        n < s.len() ==> !is_white(s[n]),
    ensures
        trim_start(s) == s.skip(n),
    decreases n,
{
    if n == 0 {
        assert(s.skip(0) =~= s);
    } else {
        assert(is_white(s[0]));
        let t = s.drop_first();
        assert forall|k: int| 0 <= k < n - 1 implies is_white(t[k]) by {
            assert(t[k] == s[k + 1]);
        }
        lemma_trim_start_at(t, n - 1);
        assert(t.skip(n - 1) =~= s.skip(n));
    }
}

proof fn lemma_trim_end_at(s: Seq<char>, n: int)
    requires
        0 <= n <= s.len(),
        forall|k: int| n <= k < s.len() ==> is_white(s[k]),
        n > 0 ==> !is_white(s[n - 1]),
    ensures
        trim_end(s) == s.take(n),
    decreases s.len() - n,
{
    if n == s.len() {
        assert(s.take(n) =~= s);
    } else {
        lemma_trim_end_at(s.drop_last(), n);
        assert(s.drop_last().take(n) =~= s.take(n));
    }
}

/// A text without the white space around it.
pub fn trim(s: &str) -> (t: String)
    ensures
        t@ == trimmed(s@),
{
    let chars = characters(s);
    let mut from: usize = 0;
    while from < chars.len() && white(chars[from])
        invariant
            from <= chars@.len(),
            forall|k: int| 0 <= k < from ==> is_white(chars@[k]),
        decreases chars@.len() - from,
    {
        from += 1;
    }
    let mut to: usize = chars.len();
    while to > from && white(chars[to - 1])
        invariant
            from <= to <= chars@.len(),
            forall|k: int| to <= k < chars@.len() ==> is_white(chars@[k]),
        decreases to,
    {
        to -= 1;
    }
    proof {
        lemma_trim_start_at(s@, from as int);
        let tail = s@.skip(from as int);
        assert forall|k: int| to - from <= k < tail.len() implies is_white(tail[k]) by {
            assert(tail[k] == s@[k + from]);
        }
        lemma_trim_end_at(tail, to - from);
        assert(tail.take(to - from) =~= s@.subrange(from as int, to as int));
    }
    s.substring_char(from, to).to_owned()
}

proof fn lemma_before_space_at(s: Seq<char>, n: int)
    requires
        0 <= n <= s.len(),
        forall|k: int| 0 <= k < n ==> s[k] != ' ',
        n < s.len() ==> s[n] == ' ',
    ensures
        before_space(s) == n,
    decreases n,
{
    if n > 0 {
        let t = s.drop_first();
        assert forall|k: int| 0 <= k < n - 1 implies t[k] != ' ' by {
            assert(t[k] == s[k + 1]);
        }
        lemma_before_space_at(t, n - 1);
    }
}

/// Cuts a text at its first space.
pub fn split_once_space(s: &str) -> (parts: Option<(String, String)>)
    ensures
        match parts {
            Some((head, tail)) => cut_at_space(s@) == Some((head@, tail@)),
            None => cut_at_space(s@) is None,
        },
{
    let chars = characters(s);
    let mut at: usize = 0;
    while at < chars.len() && chars[at] != ' '
        invariant
            at <= chars@.len(),
            forall|k: int| 0 <= k < at ==> chars@[k] != ' ',
        decreases chars@.len() - at,
    {
        at += 1;
    }
    proof {
        lemma_before_space_at(s@, at as int);
    }
    if at < chars.len() {
        let head = s.substring_char(0, at).to_owned();
        let tail = s.substring_char(at + 1, chars.len()).to_owned();
        assert(s@.subrange(0, at as int) =~= s@.take(at as int));
        assert(s@.subrange(at + 1, s@.len() as int) =~= s@.skip(at + 1));
        Some((head, tail))
    } else {
        None
    }
}

proof fn lemma_word_len_at(s: Seq<char>, n: int)
    requires
        0 <= n <= s.len(),
        forall|k: int| 0 <= k < n ==> !is_white(s[k]),
        n < s.len() ==> is_white(s[n]),
    ensures
        word_len(s) == n,
    decreases n,
{
    if n > 0 {
        let t = s.drop_first();
        assert forall|k: int| 0 <= k < n - 1 implies !is_white(t[k]) by {
            assert(t[k] == s[k + 1]);
        }
        lemma_word_len_at(t, n - 1);
    }
}

/// Splits a text into its words.
pub fn split_words(s: &str) -> (list: Vec<String>)
    ensures
        views(list@) == words(s@),
{
    let chars = characters(s);
    let mut list: Vec<String> = Vec::new();
    let mut at: usize = 0;
    assert(s@.skip(0) =~= s@);
    assert(views(list@) + words(s@) =~= words(s@));
    while at < chars.len()
        invariant
            chars@ == s@,
            at <= chars@.len(),
            views(list@) + words(s@.skip(at as int)) == words(s@),
        decreases chars@.len() - at,
    {
        let ghost left = s@.skip(at as int);
        if white(chars[at]) {
            assert(left.drop_first() =~= s@.skip(at + 1));
            at += 1;
        } else {
            let mut end: usize = at;
            while end < chars.len() && !white(chars[end])
                invariant
                    chars@ == s@,
                    at <= end <= chars@.len(),
                    left == s@.skip(at as int),
                    forall|k: int| 0 <= k < end - at ==> !is_white(left[k]),
                decreases chars@.len() - end,
            {
                assert(left[end - at] == s@[end as int]);
                end += 1;
            }
            let word = s.substring_char(at, end).to_owned();
            proof {
                if end < s@.len() {
                    assert(left[end - at] == s@[end as int]);
                }
                lemma_word_len_at(left, end - at);
                if end == at {
                    assert(left[0] == s@[at as int]);
                }
                assert(left.take(end - at) =~= word@);
                assert(left.skip(end - at) =~= s@.skip(end as int));
                let rest = words(s@.skip(end as int));
                assert(views(list@.push(word)) =~= views(list@).push(word@));
                assert(views(list@).push(word@) + rest =~= views(list@) + (seq![word@] + rest));
            }
            list.push(word);
            at = end;
        }
    }
    assert(s@.skip(at as int) =~= Seq::<char>::empty());
    assert(views(list@) + words(s@.skip(at as int)) =~= views(list@));
    list
}

/// The lower-case hexadecimal digit of a value below sixteen.
pub open spec fn digit(value: int) -> char {
    if value == 0 {
        '0'
    } else if value == 1 {
        '1'
    } else if value == 2 {
        '2'
    } else if value == 3 {
        '3'
    } else if value == 4 {
        '4'
    } else if value == 5 {
        '5'
    } else if value == 6 {
        '6'
    } else if value == 7 {
        '7'
    } else if value == 8 {
        '8'
    } else if value == 9 {
        '9'
    } else if value == 10 {
        'a'
    } else if value == 11 {
        'b'
    } else if value == 12 {
        'c'
    } else if value == 13 {
        'd'
    } else if value == 14 {
        'e'
    } else {
        'f'
    }
}

/// A number in decimal digits, without leading zeros.
pub open spec fn decimal(value: nat) -> Seq<char>
    decreases value,
{
    if value < 10 {
        seq![digit(value as int)]
    } else {
        decimal(value / 10).push(digit((value % 10) as int))
    }
}

/// A signed number in decimal digits.
pub open spec fn signed_decimal(value: int) -> Seq<char> {
    if value < 0 {
        seq!['-'] + decimal((-value) as nat)
    } else {
        decimal(value as nat)
    }
}

/// Bytes in hexadecimal, two digits each.
pub open spec fn hex(bytes: Seq<u8>) -> Seq<char> {
    Seq::new(
        2 * bytes.len(),
        |i: int| digit(if i % 2 == 0 { bytes[i / 2] as int / 16 } else { bytes[i / 2] as int % 16 }),
    )
}

/// The digit of a value below sixteen, as a text of one character.
fn digit_text(value: u8) -> (t: &'static str)
    requires
        value < 16,
    ensures
        t@ == seq![digit(value as int)],
{
    proof {
        reveal_strlit("0");
        reveal_strlit("1");
        reveal_strlit("2");
        reveal_strlit("3");
        reveal_strlit("4");
        reveal_strlit("5");
        reveal_strlit("6");
        reveal_strlit("7");
        reveal_strlit("8");
        reveal_strlit("9");
        reveal_strlit("a");
        reveal_strlit("b");
        reveal_strlit("c");
        reveal_strlit("d");
        reveal_strlit("e");
        reveal_strlit("f");
    }
    let t = match value {
        0 => "0",
        1 => "1",
        2 => "2",
        3 => "3",
        4 => "4",
        5 => "5",
        6 => "6",
        7 => "7",
        8 => "8",
        9 => "9",
        10 => "a",
        11 => "b",
        12 => "c",
        13 => "d",
        14 => "e",
        _ => "f",
    };
    assert(t@ =~= seq![digit(value as int)]);
    t
}

/// Writes a number in decimal digits.
pub fn decimal_text(value: u64) -> (t: String)
    ensures
        t@ == decimal(value as nat),
    decreases value,
{
    if value < 10 {
        digit_text(value as u8).to_owned()
    } else {
        let mut t = decimal_text(value / 10);
        let last: u8 = (value % 10) as u8;
        t.append(digit_text(last));
        assert(t@ =~= decimal(value as nat));
        t
    }
}

/// Writes a signed number in decimal digits.
pub fn signed_decimal_text(value: i64) -> (t: String)
    ensures
        t@ == signed_decimal(value as int),
{
    if value < 0 {
        proof {
            reveal_strlit("-");
        }
        let mut t = "-".to_owned();
        assert(t@ =~= seq!['-']);
        let magnitude: u64 = (-(value as i128)) as u64;
        let digits = decimal_text(magnitude);
        t.append(digits.as_str());
        t
    } else {
        decimal_text(value as u64)
    }
}

/// Writes bytes in hexadecimal.
pub fn hex_text(bytes: &[u8]) -> (t: String)
    ensures
        t@ == hex(bytes@),
{
    let mut t = String::new();
    assert(t@ =~= hex(bytes@.take(0)));
    let mut i: usize = 0;
    while i < bytes.len()
        invariant
            i <= bytes@.len(),
            t@ == hex(bytes@.take(i as int)),
        decreases bytes@.len() - i,
    {
        let byte = bytes[i];
        t.append(digit_text(byte / 16));
        t.append(digit_text(byte % 16));
        proof {
            let before = bytes@.take(i as int);
            let after = bytes@.take(i + 1);
            assert forall|k: int| 0 <= k < hex(after).len() implies t@[k] == hex(after)[k] by {
                if k < 2 * i {
                    assert(after[k / 2] == before[k / 2]);
                    assert(hex(before)[k] == hex(after)[k]);
                }
            }
            assert(t@ =~= hex(after));
        }
        i += 1;
    }
    assert(bytes@.take(i as int) =~= bytes@);
    t
}

/// Whether a character is an ASCII decimal digit.
pub open spec fn is_digit(c: char) -> bool {
    '0' <= c <= '9'
}

/// The value of a sequence of decimal digits.
pub open spec fn digits_value(s: Seq<char>) -> nat
    decreases s.len(),
{
    if s.len() == 0 {
        0
    } else {
        digits_value(s.drop_last()) * 10 + (s.last() as nat - '0' as nat) as nat
    }
}

/// Whether a text is made of decimal digits only.
pub open spec fn all_digits(s: Seq<char>) -> bool {
    forall|i: int| 0 <= i < s.len() ==> is_digit(s[i])
}

/// A text without one leading `+`.
pub open spec fn without_plus(s: Seq<char>) -> Seq<char> {
    if s.len() > 0 && s[0] == '+' {
        s.drop_first()
    } else {
        s
    }
}

/// Reads a number: decimal digits, at least one, behind at most one `+`, in the range of `u32`.
pub open spec fn number(s: Seq<char>) -> Option<u32> {
    let digits = without_plus(s);
    if digits.len() > 0 && all_digits(digits) && digits_value(digits) <= u32::MAX {
        Some(digits_value(digits) as u32)
    } else {
        None
    }
}

proof fn lemma_digits_value_grows(s: Seq<char>, n: int)
    requires
        0 <= n <= s.len(),
    ensures
        digits_value(s.take(n)) <= digits_value(s),
    decreases s.len() - n,
{
    if n == s.len() {
        assert(s.take(n) =~= s);
    } else {
        lemma_digits_value_grows(s.drop_last(), n);
        assert(s.drop_last().take(n) =~= s.take(n));
    }
}

/// Reads a decimal number in the range of `u32`.
pub fn parse_number(s: &str) -> (value: Option<u32>)
    ensures
        value == number(s@),
{
    let chars = characters(s);
    let start: usize = if chars.len() > 0 && chars[0] == '+' {
        1
    } else {
        0
    };
    let ghost digits = s@.skip(start as int);
    assert(digits =~= without_plus(s@));
    if start == chars.len() {
        return None;
    }
    let mut total: u64 = 0;
    let mut i: usize = start;
    assert(digits.take(0) =~= Seq::<char>::empty());
    while i < chars.len()
        invariant
            chars@ == s@,
            start <= i <= chars@.len(),
            start < chars@.len(),
            digits == s@.skip(start as int),
            digits == without_plus(s@),
            total == digits_value(digits.take(i - start)),
            total <= u32::MAX,
            forall|k: int| 0 <= k < i - start ==> is_digit(digits[k]),
        decreases chars@.len() - i,
    {
        let c = chars[i];
        assert(digits[i - start] == c);
        if !('0' <= c && c <= '9') {
            return None;
        }
        let d: u64 = (c as u32 - '0' as u32) as u64;
        proof {
            let next = digits.take(i + 1 - start);
            assert(next.drop_last() =~= digits.take(i - start));
            assert(next.last() == c);
            lemma_digits_value_grows(digits, i + 1 - start);
        }
        total = total * 10 + d;
        if total > u32::MAX as u64 {
            return None;
        }
        i += 1;
    }
    assert(digits.take(i - start) =~= digits);
    Some(total as u32)
}

/// Joins two texts.
pub fn join(a: &str, b: &str) -> (t: String)
    ensures
        t@ == a@ + b@,
{
    let mut t = a.to_owned();
    t.append(b);
    t
}

/// Three texts in a row.
pub fn join3(a: &str, b: &str, c: &str) -> (t: String)
    ensures
        t@ == a@ + b@ + c@,
{
    let mut t = join(a, b);
    t.append(c);
    t
}

/// A line of input taken apart: the command before the first space, and what follows without
/// white space around it.
pub open spec fn command(line: Seq<char>) -> (Seq<char>, Seq<char>) {
    match cut_at_space(line) {
        Some((cmd, rest)) => (cmd, trimmed(rest)),
        None => (line, Seq::empty()),
    }
}

/// Takes a line of input apart.
pub fn split_command(line: &str) -> (parts: (String, String))
    ensures
        (parts.0@, parts.1@) == command(line@),
{
    match split_once_space(line) {
        Some((cmd, rest)) => (cmd, trim(rest.as_str())),
        None => {
            let rest = String::new();
            assert(rest@ =~= Seq::empty());
            (line.to_owned(), rest)
        },
    }
}

/// Where trimming begins and ends.
proof fn lemma_trim_bounds(s: Seq<char>) -> (bounds: (int, int))
    ensures
        0 <= bounds.0 <= bounds.1 <= s.len(),
        trimmed(s) == s.subrange(bounds.0, bounds.1),
        forall|i: int| 0 <= i < bounds.0 || bounds.1 <= i < s.len() ==> is_white(#[trigger] s[i]),
        bounds.0 < bounds.1 ==> !is_white(s[bounds.0]) && !is_white(s[bounds.1 - 1]),
{
    let a = lemma_trim_start_bound(s);
    let t = s.skip(a);
    let n = lemma_trim_end_bound(t);
    let b = a + n;
    assert(t.take(n) =~= s.subrange(a, b));
    assert forall|i: int| 0 <= i < a || b <= i < s.len() implies is_white(#[trigger] s[i]) by {
        if b <= i {
            assert(t[i - a] == s[i]);
        }
    }
    (a, b)
}

proof fn lemma_trim_start_bound(s: Seq<char>) -> (n: int)
    ensures
        0 <= n <= s.len(),
        trim_start(s) == s.skip(n),
        forall|i: int| 0 <= i < n ==> is_white(#[trigger] s[i]),
        n < s.len() ==> !is_white(s[n]),
    decreases s.len(),
{
    if s.len() > 0 && is_white(s[0]) {
        let t = s.drop_first();
        let n = lemma_trim_start_bound(t) + 1;
        assert(t.skip(n - 1) =~= s.skip(n));
        assert forall|i: int| 0 <= i < n implies is_white(#[trigger] s[i]) by {
            if i > 0 {
                assert(t[i - 1] == s[i]);
            }
        }
        n
    } else {
        assert(s.skip(0) =~= s);
        0
    }
}

proof fn lemma_trim_end_bound(s: Seq<char>) -> (n: int)
    ensures
        0 <= n <= s.len(),
        trim_end(s) == s.take(n),
        forall|i: int| n <= i < s.len() ==> is_white(#[trigger] s[i]),
        n > 0 ==> !is_white(s[n - 1]),
    decreases s.len(),
{
    if s.len() > 0 && is_white(s.last()) {
        let t = s.drop_last();
        let n = lemma_trim_end_bound(t);
        assert(t.take(n) =~= s.take(n));
        assert forall|i: int| n <= i < s.len() implies is_white(#[trigger] s[i]) by {
            if i < t.len() {
                assert(t[i] == s[i]);
            }
        }
        n
    } else {
        assert(s.take(s.len() as int) =~= s);
        s.len() as int
    }
}

/// Trimming takes the white space off both ends and nothing else: what is left is a run of the
/// text, all that is taken off is white space, and what is left neither begins nor ends with any.
pub proof fn law_trimmed(s: Seq<char>)
    ensures
        exists|a: int, b: int|
            {
                &&& 0 <= a <= b <= s.len()
                &&& trimmed(s) == #[trigger] s.subrange(a, b)
                &&& forall|i: int| 0 <= i < a || b <= i < s.len() ==> is_white(#[trigger] s[i])
            },
        trimmed(s).len() > 0 ==> !is_white(trimmed(s)[0]) && !is_white(trimmed(s).last()),
        trimmed(trimmed(s)) == trimmed(s),
{
    let (a, b) = lemma_trim_bounds(s);
    assert(trimmed(s) == s.subrange(a, b));
    law_tidy_is_kept(trimmed(s));
}

/// A text that neither begins nor ends with white space is left as it is.
pub proof fn law_tidy_is_kept(s: Seq<char>)
    requires
        s.len() > 0 ==> !is_white(s[0]) && !is_white(s.last()),
    ensures
        trimmed(s) == s,
{
    lemma_trim_start_at(s, 0);
    assert(s.skip(0) =~= s);
    lemma_trim_end_at(s, s.len() as int);
    assert(s.take(s.len() as int) =~= s);
}

/// Whether a text has no space in it.
pub open spec fn spaceless(s: Seq<char>) -> bool {
    forall|i: int| 0 <= i < s.len() ==> #[trigger] s[i] != ' '
}

/// Whether a text is a word: not empty, and without white space.
pub open spec fn is_word(s: Seq<char>) -> bool {
    s.len() > 0 && forall|i: int| 0 <= i < s.len() ==> !is_white(#[trigger] s[i])
}

/// A text is cut at its first space: the two parts around it come out as they are. A text without
/// one is not cut. A line is cut in the same way, and what follows the command is trimmed.
pub proof fn law_cut(head: Seq<char>, tail: Seq<char>)
    requires
        spaceless(head),
    ensures
        cut_at_space(head) is None,
        cut_at_space(head + seq![' '] + tail) == Some((head, tail)),
        command(head) == (head, Seq::<char>::empty()),
        command(head + seq![' '] + tail) == (head, trimmed(tail)),
{
    lemma_before_space_at(head, head.len() as int);
    let s = head + seq![' '] + tail;
    let n = head.len() as int;
    assert(s[n] == ' ');
    assert forall|k: int| 0 <= k < n implies s[k] != ' ' by {
        assert(s[k] == head[k]);
    }
    lemma_before_space_at(s, n);
    assert(s.take(n) =~= head);
    assert(s.skip(n + 1) =~= tail);
}

/// The words of a text are its runs without white space: white space before a word does not
/// matter, and a word ends where white space, or the end, comes.
pub proof fn law_words(white: char, word: Seq<char>, rest: Seq<char>)
    requires
        is_white(white),
        is_word(word),
        rest.len() > 0 ==> is_white(rest[0]),
    ensures
        words(Seq::<char>::empty()) == Seq::<Seq<char>>::empty(),
        words(seq![white] + rest) == words(rest),
        words(word + rest) == seq![word] + words(rest),
{
    let s = seq![white] + rest;
    assert(s.drop_first() =~= rest);
    assert(s[0] == white);
    let t = word + rest;
    let n = word.len() as int;
    assert(t[0] == word[0]);
    assert forall|k: int| 0 <= k < n implies !is_white(t[k]) by {
        assert(t[k] == word[k]);
    }
    if n < t.len() {
        assert(t[n] == rest[0]);
    }
    lemma_word_len_at(t, n);
    assert(t.take(n) =~= word);
    assert(t.skip(n) =~= rest);
}

proof fn lemma_decimal(n: nat)
    ensures
        decimal(n).len() > 0,
        all_digits(decimal(n)),
        digits_value(decimal(n)) == n,
        decimal(n)[0] == '0' ==> n == 0,
    decreases n,
{
    reveal_with_fuel(digits_value, 2);
    if n < 10 {
        assert(decimal(n).drop_last() =~= Seq::<char>::empty());
        assert(decimal(n).last() == digit(n as int));
    } else {
        lemma_decimal(n / 10);
        assert(decimal(n).drop_last() =~= decimal(n / 10));
        assert(decimal(n).last() == digit((n % 10) as int));
        assert(decimal(n)[0] == decimal(n / 10)[0]);
    }
}

/// A number is written in digits that have its value, without leading zeros, and is read back;
/// with a `+` before it too.
pub proof fn law_numbers_are_read_back(n: u64)
    ensures
        decimal(n as nat).len() > 0,
        all_digits(decimal(n as nat)),
        digits_value(decimal(n as nat)) == n,
        decimal(n as nat)[0] == '0' ==> n == 0,
        n <= u32::MAX ==> number(decimal(n as nat)) == Some(n as u32),
        n <= u32::MAX ==> number(seq!['+'] + decimal(n as nat)) == Some(n as u32),
        n > u32::MAX ==> number(decimal(n as nat)) is None,
{
    lemma_decimal(n as nat);
    let t = decimal(n as nat);
    assert(is_digit(t[0]));
    assert((seq!['+'] + t).drop_first() =~= t);
}

/// One more digit makes a number ten times as large, and adds the digit, as long as it fits; any
/// other character makes it no number.
pub proof fn law_numbers_grow_by_digits(s: Seq<char>, n: u32, c: char)
    requires
        number(s) == Some(n),
    ensures
        number(s.push(c)) == if '0' <= c <= '9' && 10 * n + (c as int - '0' as int) <= u32::MAX {
            Some((10 * n + (c as int - '0' as int)) as u32)
        } else {
            None
        },
        number(Seq::<char>::empty()) is None,
        number(seq!['+']) is None,
{
    let d = without_plus(s);
    let more = without_plus(s.push(c));
    assert(more =~= d.push(c));
    assert(more.drop_last() =~= d);
    assert(seq!['+'].drop_first() =~= Seq::<char>::empty());
    if is_digit(c) {
        assert(all_digits(more));
    } else {
        assert(!is_digit(more[more.len() - 1]));
    }
}

/// The value of a hexadecimal digit.
pub open spec fn nibble(c: char) -> int {
    if '0' <= c <= '9' {
        c as int - '0' as int
    } else {
        c as int - 'a' as int + 10
    }
}

/// Each byte is written as two hexadecimal digits, the higher one first.
pub proof fn law_hex_shows_bytes(bytes: Seq<u8>)
    ensures
        hex(bytes).len() == 2 * bytes.len(),
        forall|i: int|
            0 <= i < bytes.len() ==> 16 * nibble(hex(bytes)[2 * i]) + nibble(hex(bytes)[2 * i + 1])
                == #[trigger] bytes[i],
        forall|i: int|
            0 <= i < hex(bytes).len() ==> '0' <= (#[trigger] hex(bytes)[i]) <= '9' || 'a' <= hex(
                bytes,
            )[i] <= 'f',
{
    assert forall|i: int| 0 <= i < bytes.len() implies 16 * nibble(hex(bytes)[2 * i]) + nibble(
        hex(bytes)[2 * i + 1],
    ) == #[trigger] bytes[i] by {
        let b = bytes[i];
        assert(hex(bytes)[2 * i] == digit(b as int / 16));
        assert(hex(bytes)[2 * i + 1] == digit(b as int % 16));
    }
    assert forall|i: int| 0 <= i < hex(bytes).len() implies '0' <= (#[trigger] hex(bytes)[i])
        <= '9' || 'a' <= hex(bytes)[i] <= 'f' by {}
}

/// Whether a text holds another one.
pub open spec fn mentions(all: Seq<char>, part: Seq<char>) -> bool {
    exists|a: int, b: int| 0 <= a <= b <= all.len() && #[trigger] all.subrange(a, b) == part
}

proof fn lemma_first_difference(front: Seq<u8>, a: Seq<u8>, b: Seq<u8>)
    ensures
        bytes_lt(front + a, front + b) == bytes_lt(a, b),
    decreases front.len(),
{
    if front.len() == 0 {
        assert(front + a =~= a);
        assert(front + b =~= b);
    } else {
        assert((front + a).drop_first() =~= front.drop_first() + a);
        assert((front + b).drop_first() =~= front.drop_first() + b);
        lemma_first_difference(front.drop_first(), a, b);
    }
}

/// Of two byte strings the one with the smaller byte at the first place where they differ comes
/// first; and what goes on comes behind its own beginning.
pub proof fn law_first_difference_decides(
    front: Seq<u8>,
    x: u8,
    y: u8,
    more: Seq<u8>,
    other: Seq<u8>,
)
    ensures
        x < y ==> bytes_lt(front + (seq![x] + more), front + (seq![y] + other)),
        x > y ==> !bytes_lt(front + (seq![x] + more), front + (seq![y] + other)),
        bytes_lt(front, front + (seq![x] + more)),
        !bytes_lt(front + (seq![x] + more), front),
{
    lemma_first_difference(front, seq![x] + more, seq![y] + other);
    lemma_first_difference(front, Seq::empty(), seq![x] + more);
    lemma_first_difference(front, seq![x] + more, Seq::empty());
    assert(front + Seq::empty() =~= front);
}

/// Of two ASCII texts the one with the smaller character at the first place where they differ comes
/// first; and a text that goes on comes behind its own beginning.
pub proof fn law_ascii_order(
    front: Seq<char>,
    x: char,
    y: char,
    more: Seq<char>,
    other: Seq<char>,
)
    requires
        vstd::utf8::is_ascii_chars(front + (seq![x] + more)),
        vstd::utf8::is_ascii_chars(front + (seq![y] + other)),
        (x as u32) < (y as u32),
    ensures
        text_lt(front + (seq![x] + more), front + (seq![y] + other)),
        !text_lt(front + (seq![y] + other), front + (seq![x] + more)),
        text_lt(front, front + (seq![x] + more)),
        !text_lt(front + (seq![x] + more), front),
{
    let a = front + (seq![x] + more);
    let b = front + (seq![y] + other);
    let n = front.len() as int;
    assert(front =~= a.take(n));
    vstd::utf8::is_ascii_chars_encode_utf8(a);
    vstd::utf8::is_ascii_chars_encode_utf8(b);
    assert forall|i: int| 0 <= i < n implies '\0' <= #[trigger] front[i] <= '\u{7f}' by {
        assert(a[i] == front[i]);
    }
    vstd::utf8::is_ascii_chars_encode_utf8(front);
    let bytes = vstd::utf8::encode_utf8(front);
    let bytes_a = vstd::utf8::encode_utf8(a);
    let bytes_b = vstd::utf8::encode_utf8(b);
    assert(a[n] == x && b[n] == y);
    assert forall|i: int| 0 <= i < n implies bytes_a[i] == bytes[i] && bytes_b[i] == bytes[i] by {
        assert(a[i] == front[i] && b[i] == front[i]);
    }
    assert(bytes_a =~= bytes + (seq![bytes_a[n]] + bytes_a.skip(n + 1)));
    assert(bytes_b =~= bytes + (seq![bytes_b[n]] + bytes_b.skip(n + 1)));
    law_first_difference_decides(
        bytes,
        bytes_a[n],
        bytes_b[n],
        bytes_a.skip(n + 1),
        bytes_b.skip(n + 1),
    );
    law_first_difference_decides(
        bytes,
        bytes_b[n],
        bytes_a[n],
        bytes_b.skip(n + 1),
        bytes_a.skip(n + 1),
    );
}

/// Of the ASCII characters the space, the tab and the four that end a line or a page are white
/// space, and no letter, digit or mark is; above them are the no-break spaces, the spaces of fixed
/// width and the separators of lines and paragraphs.
pub proof fn law_white_space(c: char)
    ensures
        (c as u32) < 128 ==> (is_white(c) <==> c == ' ' || c == '\t' || c == '\n' || c == '\r' || c
            == '\u{b}' || c == '\u{c}'),
        (c as u32) >= 128 ==> (is_white(c) <==> c == '\u{85}' || c == '\u{a0}' || c == '\u{1680}'
            || '\u{2000}' as u32 <= c as u32 <= '\u{200a}' as u32 || c == '\u{2028}' || c
            == '\u{2029}' || c == '\u{202f}' || c == '\u{205f}' || c == '\u{3000}'),
{
}

} // verus!
