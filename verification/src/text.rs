//! Text, as sequences of characters.
//!
//! The bridge spends most of its time taking strings apart (frames, codes,
//! addresses) and putting strings together (frames, sentences for the
//! operator). This module says what each of those operations means on a
//! sequence of characters, and implements it.

use vstd::prelude::*;
use vstd::string::*;
use vstd::utf8::*;

verus! {

/// `String::push`: the character is appended at the end of the string, and
/// nothing else changes.
pub assume_specification[ String::push ](s: &mut String, c: char)
    ensures
        final(s)@ == old(s)@.push(c),
;

// ── Characters ──────────────────────────────────────────────────────────

/// The Unicode property `White_Space`.
pub open spec fn white_space(c: char) -> bool {
    let n = c as u32;
    ||| 0x09 <= n <= 0x0d
    ||| n == 0x20
    ||| n == 0x85
    ||| n == 0xa0
    ||| n == 0x1680
    ||| 0x2000 <= n <= 0x200a
    ||| n == 0x2028
    ||| n == 0x2029
    ||| n == 0x202f
    ||| n == 0x205f
    ||| n == 0x3000
}

pub fn is_white_space(c: char) -> (r: bool)
    ensures
        r == white_space(c),
{
    let n: u32 = c as u32;
    (0x09 <= n && n <= 0x0d) || n == 0x20 || n == 0x85 || n == 0xa0 || n == 0x1680 || (0x2000 <= n
        && n <= 0x200a) || n == 0x2028 || n == 0x2029 || n == 0x202f || n == 0x205f || n == 0x3000
}

/// `0` to `9`.
pub open spec fn digit(c: char) -> bool {
    '0' <= c <= '9'
}

/// `A` to `Z`.
pub open spec fn upper(c: char) -> bool {
    'A' <= c <= 'Z'
}

/// `a` to `z`.
pub open spec fn lower(c: char) -> bool {
    'a' <= c <= 'z'
}

pub fn is_digit(c: char) -> (r: bool)
    ensures
        r == digit(c),
{
    '0' <= c && c <= '9'
}

pub fn is_upper(c: char) -> (r: bool)
    ensures
        r == upper(c),
{
    'A' <= c && c <= 'Z'
}

pub fn is_lower(c: char) -> (r: bool)
    ensures
        r == lower(c),
{
    'a' <= c && c <= 'z'
}

// ── Copies and comparisons ──────────────────────────────────────────────

/// The characters of a string, one by one.
pub fn chars_of(s: &str) -> (r: Vec<char>)
    ensures
        r@ == s@,
{
    let mut out: Vec<char> = Vec::new();
    for c in it: s.chars()
        invariant
            out@ == it.seq().take(it.index() as int),
            it.seq() == s@,
    {
        out.push(c);
    }
    out
}

/// Whether two strings hold the same characters.
pub fn same(a: &str, b: &str) -> (r: bool)
    ensures
        r == (a@ == b@),
{
    let x: Vec<char> = chars_of(a);
    let y: Vec<char> = chars_of(b);
    if x.len() != y.len() {
        return false;
    }
    let mut i: usize = 0;
    while i < x.len()
        invariant
            x@ == a@,
            y@ == b@,
            x.len() == y.len(),
            i <= x.len(),
            forall|j: int| 0 <= j < i ==> x@[j] == y@[j],
        decreases x.len() - i,
    {
        if x[i] != y[i] {
            return false;
        }
        i += 1;
    }
    assert(a@ =~= b@);
    true
}

/// Two strings with the same bytes hold the same characters.
pub proof fn lemma_same_bytes(a: Seq<char>, b: Seq<char>)
    ensures
        (encode_utf8(a) == encode_utf8(b)) == (a == b),
{
    encode_utf8_decode_utf8(a);
    encode_utf8_decode_utf8(b);
}

/// The text that these bytes encode in UTF-8, if they encode one.
pub open spec fn utf8_text(bytes: Seq<u8>) -> Option<Seq<char>> {
    if exists|s: Seq<char>| encode_utf8(s) == bytes {
        Some(choose|s: Seq<char>| encode_utf8(s) == bytes)
    } else {
        None
    }
}

/// `String::from_utf8`.
///
/// Claims that it gives the text whose UTF-8 encoding these bytes are, and
/// fails only where there is none.
#[verifier::external_body]
fn from_utf8(bytes: &Vec<u8>) -> (r: Option<String>)
    ensures
        match r {
            Some(s) => encode_utf8(s@) == bytes@,
            None => forall|s: Seq<char>| encode_utf8(s) != bytes@,
        },
{
    String::from_utf8(bytes.clone()).ok()
}

/// The text that these bytes encode in UTF-8.
pub fn decoded(bytes: &Vec<u8>) -> (r: Option<String>)
    ensures
        text_opt(r) == utf8_text(bytes@),
{
    let r = from_utf8(bytes);
    proof {
        if r is Some {
            lemma_same_bytes(r->Some_0@, utf8_text(bytes@)->Some_0);
        }
    }
    r
}

/// The text that the encoding of a text encodes is that text.
pub proof fn lemma_utf8_text(s: Seq<char>)
    ensures
        utf8_text(encode_utf8(s)) == Some(s),
{
    lemma_same_bytes(s, utf8_text(encode_utf8(s))->Some_0);
}

/// The bytes of two texts, one after the other.
pub proof fn lemma_utf8_concat(a: Seq<char>, b: Seq<char>)
    ensures
        encode_utf8(a + b) == encode_utf8(a) + encode_utf8(b),
    decreases a.len(),
{
    if a.len() == 0 {
        assert(a + b =~= b);
        assert(encode_utf8(a) + encode_utf8(b) =~= encode_utf8(b));
    } else {
        assert((a + b).drop_first() =~= a.drop_first() + b);
        lemma_utf8_concat(a.drop_first(), b);
        let first = encode_scalar(a[0] as u32);
        assert(first + (encode_utf8(a.drop_first()) + encode_utf8(b)) =~= first + encode_utf8(
            a.drop_first(),
        ) + encode_utf8(b));
    }
}

/// A text without control characters has no line end among its bytes.
pub proof fn lemma_utf8_no_line_end(s: Seq<char>)
    requires
        forall|i: int| 0 <= i < s.len() ==> #[trigger] s[i] as u32 >= 0x20,
    ensures
        forall|i: int| 0 <= i < encode_utf8(s).len() ==> #[trigger] encode_utf8(s)[i] != 10u8,
    decreases s.len(),
{
    if s.len() > 0 {
        let v: u32 = s[0] as u32;
        assert(v >= 0x20);
        lemma_utf8_no_line_end(s.drop_first());
        lemma_scalar_bytes(v);
        let (first, rest) = (encode_scalar(v), encode_utf8(s.drop_first()));
        assert forall|i: int| 0 <= i < encode_utf8(s).len() implies #[trigger] encode_utf8(s)[i]
            != 10u8 by {
            if i < first.len() {
                assert(encode_utf8(s)[i] == first[i]);
            } else {
                assert(encode_utf8(s)[i] == rest[i - first.len()]);
            }
        }
    }
}

proof fn lemma_scalar_bytes(v: u32)
    requires
        v >= 0x20,
    ensures
        forall|i: int| 0 <= i < encode_scalar(v).len() ==> #[trigger] encode_scalar(v)[i] != 10u8,
{
    assert(v <= 0x7f && v >= 0x20 ==> (v & 0x7F) as u8 != 10u8) by (bit_vector);
    assert(0xC0 | ((v >> 6) & 0x1F) as u8 != 10u8) by (bit_vector);
    assert(0xE0 | ((v >> 12) & 0x0F) as u8 != 10u8) by (bit_vector);
    assert(0xF0 | ((v >> 18) & 0x7) as u8 != 10u8) by (bit_vector);
    assert(0x80 | (v & 0x3F) as u8 != 10u8) by (bit_vector);
    assert(0x80 | ((v >> 6) & 0x3F) as u8 != 10u8) by (bit_vector);
    assert(0x80 | ((v >> 12) & 0x3F) as u8 != 10u8) by (bit_vector);
}

/// The texts of a list of strings.
pub open spec fn texts(list: Seq<String>) -> Seq<Seq<char>> {
    list.map_values(|s: String| s@)
}

/// The text of an optional string.
pub open spec fn text_opt(s: Option<String>) -> Option<Seq<char>> {
    match s {
        Some(t) => Some(t@),
        None => None,
    }
}

pub fn copy_list(list: &Vec<String>) -> (r: Vec<String>)
    ensures
        texts(r@) == texts(list@),
{
    let mut out: Vec<String> = Vec::new();
    let mut i: usize = 0;
    while i < list.len()
        invariant
            i <= list.len(),
            out.len() == i,
            forall|j: int| 0 <= j < i ==> out@[j] == list@[j],
        decreases list.len() - i,
    {
        out.push(list[i].clone());
        i += 1;
    }
    out
}

pub fn copy_opt(s: &Option<String>) -> (r: Option<String>)
    ensures
        text_opt(r) == text_opt(*s),
{
    match s {
        Some(t) => Some(t.clone()),
        None => None,
    }
}

// ── Trimming ────────────────────────────────────────────────────────────

/// `s` without its leading white space.
pub open spec fn trim_start(s: Seq<char>) -> Seq<char>
    decreases s.len(),
{
    if s.len() > 0 && white_space(s[0]) {
        trim_start(s.drop_first())
    } else {
        s
    }
}

/// `s` without its trailing white space.
pub open spec fn trim_end(s: Seq<char>) -> Seq<char>
    decreases s.len(),
{
    if s.len() > 0 && white_space(s.last()) {
        trim_end(s.drop_last())
    } else {
        s
    }
}

/// `s` without white space at either end.
pub open spec fn trim(s: Seq<char>) -> Seq<char> {
    trim_end(trim_start(s))
}

/// Nothing but white space.
pub open spec fn blank(s: Seq<char>) -> bool {
    trim(s).len() == 0
}

/// `s` without the run of `c` at its end.
pub open spec fn trim_end_char(s: Seq<char>, c: char) -> Seq<char>
    decreases s.len(),
{
    if s.len() > 0 && s.last() == c {
        trim_end_char(s.drop_last(), c)
    } else {
        s
    }
}

/// What is left after trimming the end does not end in the trimmed character.
pub proof fn lemma_trim_end_char_last(s: Seq<char>, c: char)
    ensures
        trim_end_char(s, c).len() <= s.len(),
        trim_end_char(s, c).len() > 0 ==> trim_end_char(s, c).last() != c,
    decreases s.len(),
{
    if s.len() > 0 && s.last() == c {
        lemma_trim_end_char_last(s.drop_last(), c);
    }
}

/// What begins with something else than white space is not blank.
pub proof fn lemma_not_blank(s: Seq<char>)
    requires
        s.len() > 0,
        !white_space(s[0]),
    ensures
        !blank(s),
{
    lemma_trim_end_not_empty(s);
}

proof fn lemma_trim_end_not_empty(s: Seq<char>)
    requires
        s.len() > 0,
        !white_space(s[0]),
    ensures
        trim_end(s).len() > 0,
    decreases s.len(),
{
    if white_space(s.last()) {
        lemma_trim_end_not_empty(s.drop_last());
    }
}

pub fn trimmed<'a>(s: &'a str) -> (r: &'a str)
    ensures
        r@ == trim(s@),
{
    let chars: Vec<char> = chars_of(s);
    let mut from: usize = 0;
    assert(s@.skip(0) =~= s@);
    while from < chars.len() && is_white_space(chars[from])
        invariant
            chars@ == s@,
            from <= chars.len(),
            trim_start(s@) == trim_start(s@.skip(from as int)),
        decreases chars.len() - from,
    {
        assert(s@.skip(from as int).drop_first() =~= s@.skip(from as int + 1));
        from += 1;
    }
    let ghost rest = s@.skip(from as int);
    assert(trim_start(rest) == rest);
    let mut to: usize = chars.len();
    assert(rest.take(to - from) =~= rest);
    while from < to && is_white_space(chars[to - 1])
        invariant
            chars@ == s@,
            from <= to <= chars.len(),
            rest == s@.skip(from as int),
            trim_end(rest) == trim_end(rest.take(to - from)),
        decreases to,
    {
        assert(rest.take(to - from).drop_last() =~= rest.take(to - from - 1));
        to -= 1;
    }
    assert(trim_end(rest.take(to - from)) == rest.take(to - from));
    assert(rest.take(to - from) =~= s@.subrange(from as int, to as int));
    s.substring_char(from, to)
}

pub fn is_blank(s: &str) -> (r: bool)
    ensures
        r == blank(s@),
{
    trimmed(s).is_empty()
}

pub fn trimmed_end_char<'a>(s: &'a str, c: char) -> (r: &'a str)
    ensures
        r@ == trim_end_char(s@, c),
{
    let chars: Vec<char> = chars_of(s);
    let mut to: usize = chars.len();
    assert(s@.take(to as int) =~= s@);
    while 0 < to && chars[to - 1] == c
        invariant
            chars@ == s@,
            to <= chars.len(),
            trim_end_char(s@, c) == trim_end_char(s@.take(to as int), c),
        decreases to,
    {
        assert(s@.take(to as int).drop_last() =~= s@.take(to - 1));
        to -= 1;
    }
    s.substring_char(0, to)
}

// ── Taking apart ────────────────────────────────────────────────────────

/// What follows `prefix` in `s`, if `s` starts with it.
pub open spec fn after_prefix(s: Seq<char>, prefix: Seq<char>) -> Option<Seq<char>> {
    if prefix.is_prefix_of(s) {
        Some(s.skip(prefix.len() as int))
    } else {
        None
    }
}

pub fn strip_prefix<'a>(s: &'a str, prefix: &str) -> (r: Option<&'a str>)
    ensures
        match r {
            Some(rest) => after_prefix(s@, prefix@) == Some(rest@),
            None => after_prefix(s@, prefix@) is None,
        },
{
    let x: Vec<char> = chars_of(s);
    let p: Vec<char> = chars_of(prefix);
    if x.len() < p.len() {
        return None;
    }
    let mut i: usize = 0;
    while i < p.len()
        invariant
            x@ == s@,
            p@ == prefix@,
            i <= p.len() <= x.len(),
            forall|j: int| 0 <= j < i ==> x@[j] == p@[j],
        decreases p.len() - i,
    {
        if x[i] != p[i] {
            assert(!prefix@.is_prefix_of(s@)) by {
                if prefix@.is_prefix_of(s@) {
                    assert(s@.subrange(0, prefix@.len() as int)[i as int] == prefix@[i as int]);
                }
            }
            return None;
        }
        i += 1;
    }
    assert(prefix@ =~= s@.subrange(0, prefix@.len() as int));
    assert(s@.skip(prefix@.len() as int) =~= s@.subrange(p.len() as int, x.len() as int));
    Some(s.substring_char(p.len(), x.len()))
}

/// The first place where `c` stands in `s`.
pub open spec fn first_index(s: Seq<char>, c: char) -> Option<int>
    decreases s.len(),
{
    if s.len() == 0 {
        None
    } else if s[0] == c {
        Some(0)
    } else {
        match first_index(s.drop_first(), c) {
            Some(i) => Some(i + 1),
            None => None,
        }
    }
}

/// [`first_index`] in the other usual wording.
pub proof fn lemma_first_index(s: Seq<char>, c: char)
    ensures
        match first_index(s, c) {
            Some(i) => 0 <= i < s.len() && s[i] == c && forall|j: int| 0 <= j < i ==> s[j] != c,
            None => forall|j: int| 0 <= j < s.len() ==> s[j] != c,
        },
    decreases s.len(),
{
    if s.len() > 0 && s[0] != c {
        let t = s.drop_first();
        lemma_first_index(t, c);
        assert forall|j: int| 0 < j < s.len() implies s[j] == t[j - 1] by {}
        match first_index(t, c) {
            Some(i) => {
                assert forall|j: int| 0 <= j < i + 1 implies s[j] != c by {
                    if j > 0 {
                        assert(t[j - 1] != c);
                    }
                }
            },
            None => {
                assert forall|j: int| 0 <= j < s.len() implies s[j] != c by {
                    if j > 0 {
                        assert(t[j - 1] != c);
                    }
                }
            },
        }
    }
}

/// Only one place can be the first.
pub proof fn lemma_first_index_is(s: Seq<char>, c: char, i: int)
    requires
        0 <= i < s.len(),
        s[i] == c,
        forall|j: int| 0 <= j < i ==> s[j] != c,
    ensures
        first_index(s, c) == Some(i),
{
    lemma_first_index(s, c);
}

pub fn find(s: &str, c: char) -> (r: Option<usize>)
    ensures
        match r {
            Some(i) => first_index(s@, c) == Some(i as int) && i < s@.len(),
            None => first_index(s@, c) is None,
        },
{
    let x: Vec<char> = chars_of(s);
    let mut i: usize = 0;
    while i < x.len()
        invariant
            x@ == s@,
            i <= x.len(),
            forall|j: int| 0 <= j < i ==> x@[j] != c,
        decreases x.len() - i,
    {
        if x[i] == c {
            proof {
                lemma_first_index_is(s@, c, i as int);
            }
            return Some(i);
        }
        i += 1;
    }
    proof {
        lemma_first_index(s@, c);
    }
    None
}

/// How many of the leading characters of `s` are digits.
pub open spec fn leading_digits(s: Seq<char>) -> nat
    decreases s.len(),
{
    if s.len() > 0 && digit(s[0]) {
        1 + leading_digits(s.drop_first())
    } else {
        0
    }
}

pub fn skip_digits<'a>(s: &'a str) -> (r: &'a str)
    ensures
        r@ == s@.skip(leading_digits(s@) as int),
{
    let x: Vec<char> = chars_of(s);
    let mut i: usize = 0;
    assert(s@.skip(0) =~= s@);
    while i < x.len() && is_digit(x[i])
        invariant
            x@ == s@,
            i <= x.len(),
            leading_digits(s@) == i + leading_digits(s@.skip(i as int)),
        decreases x.len() - i,
    {
        assert(s@.skip(i as int).drop_first() =~= s@.skip(i + 1));
        i += 1;
    }
    assert(s@.skip(i as int) =~= s@.subrange(i as int, s@.len() as int));
    s.substring_char(i, x.len())
}

/// The run of characters up to the first white space.
pub open spec fn until_white(s: Seq<char>) -> Seq<char>
    decreases s.len(),
{
    if s.len() > 0 && !white_space(s[0]) {
        seq![s[0]] + until_white(s.drop_first())
    } else {
        Seq::empty()
    }
}

/// The first word of `s`: empty when `s` is blank.
pub open spec fn word(s: Seq<char>) -> Seq<char> {
    until_white(trim_start(s))
}

pub fn first_word(s: &str) -> (r: String)
    ensures
        r@ == word(s@),
{
    let x: Vec<char> = chars_of(s);
    let mut i: usize = 0;
    assert(s@.skip(0) =~= s@);
    while i < x.len() && is_white_space(x[i])
        invariant
            x@ == s@,
            i <= x.len(),
            trim_start(s@) == trim_start(s@.skip(i as int)),
        decreases x.len() - i,
    {
        assert(s@.skip(i as int).drop_first() =~= s@.skip(i as int + 1));
        i += 1;
    }
    let mut out = String::new();
    assert(s@.skip(i as int) == trim_start(s@));
    while i < x.len() && !is_white_space(x[i])
        invariant
            x@ == s@,
            i <= x.len(),
            word(s@) == out@ + until_white(s@.skip(i as int)),
        decreases x.len() - i,
    {
        let ghost before = out@;
        out.push(x[i]);
        proof {
            let here = s@.skip(i as int);
            assert(here.drop_first() =~= s@.skip(i as int + 1));
            assert(before + (seq![here[0]] + until_white(here.drop_first())) =~= before.push(
                here[0],
            ) + until_white(here.drop_first()));
        }
        i += 1;
    }
    assert(until_white(s@.skip(i as int)) =~= Seq::<char>::empty());
    out
}

/// Whether every character of `s` is a digit.
pub open spec fn all_digits(s: Seq<char>) -> bool {
    forall|i: int| 0 <= i < s.len() ==> digit(#[trigger] s[i])
}

pub fn is_all_digits(s: &str) -> (r: bool)
    ensures
        r == all_digits(s@),
{
    let x: Vec<char> = chars_of(s);
    let mut i: usize = 0;
    while i < x.len()
        invariant
            x@ == s@,
            i <= x.len(),
            forall|j: int| 0 <= j < i ==> digit(#[trigger] s@[j]),
        decreases x.len() - i,
    {
        if !is_digit(x[i]) {
            assert(!digit(s@[i as int]));
            return false;
        }
        i += 1;
    }
    true
}

/// The first `n` characters of `s`, or all of it when it is shorter.
pub open spec fn at_most(s: Seq<char>, n: nat) -> Seq<char> {
    if s.len() <= n {
        s
    } else {
        s.take(n as int)
    }
}

pub fn cut(s: &str, n: usize) -> (r: String)
    ensures
        r@ == at_most(s@, n as nat),
{
    if s.unicode_len() <= n {
        s.to_string()
    } else {
        s.substring_char(0, n).to_string()
    }
}

// ── Numbers ─────────────────────────────────────────────────────────────

/// The digit that stands for `n`, below ten.
pub open spec fn digit_char(n: nat) -> char {
    (('0' as u32 + n) as u32) as char
}

/// `n` in decimal, without leading zeros.
pub open spec fn decimal(n: nat) -> Seq<char>
    decreases n,
{
    if n < 10 {
        seq![digit_char(n)]
    } else {
        decimal(n / 10).push(digit_char(n % 10))
    }
}

fn digit_of(n: u64) -> (r: char)
    requires
        n < 10,
    ensures
        r == digit_char(n as nat),
{
    if n == 0 {
        '0'
    } else if n == 1 {
        '1'
    } else if n == 2 {
        '2'
    } else if n == 3 {
        '3'
    } else if n == 4 {
        '4'
    } else if n == 5 {
        '5'
    } else if n == 6 {
        '6'
    } else if n == 7 {
        '7'
    } else if n == 8 {
        '8'
    } else {
        '9'
    }
}

pub fn number(n: u64) -> (r: String)
    ensures
        r@ == decimal(n as nat),
    decreases n,
{
    if n < 10 {
        let mut s = String::new();
        s.push(digit_of(n));
        assert(s@ =~= seq![digit_char(n as nat)]);
        s
    } else {
        let mut s = number(n / 10);
        s.push(digit_of(n % 10));
        s
    }
}

/// A decimal number is made of digits, and of at least one.
pub proof fn lemma_decimal_digits(n: nat)
    ensures
        decimal(n).len() > 0,
        all_digits(decimal(n)),
    decreases n,
{
    if n >= 10 {
        lemma_decimal_digits(n / 10);
    }
}

// ── Laws ────────────────────────────────────────────────────────────────

/// The number that a text of digits stands for.
pub open spec fn value_of(s: Seq<char>) -> int
    decreases s.len(),
{
    if s.len() == 0 {
        0
    } else {
        10 * value_of(s.drop_last()) + (s.last() as int - '0' as int)
    }
}

/// A number in decimal is read as that number, and has no zero to spare.
pub proof fn law_a_decimal_is_its_number(n: nat)
    ensures
        value_of(decimal(n)) == n,
        n > 0 ==> decimal(n)[0] != '0',
        n == 0 ==> decimal(n).len() == 1,
    decreases n,
{
    if n >= 10 {
        law_a_decimal_is_its_number(n / 10);
        lemma_decimal_digits(n / 10);
        assert(decimal(n).drop_last() =~= decimal(n / 10));
        assert(decimal(n).last() == digit_char(n % 10));
        assert(digit_char(n % 10) as int - '0' as int == n % 10);
    } else {
        assert(decimal(n).drop_last() =~= Seq::<char>::empty());
        assert(value_of(decimal(n).drop_last()) == 0);
        assert(decimal(n).last() == digit_char(n));
        assert(digit_char(n) as int - '0' as int == n);
    }
}

/// What stands at either end of a text that was trimmed is no white space, and
/// nothing else is missing from it than white space.
pub proof fn law_trimming_takes_only_white_space(s: Seq<char>)
    ensures
        exists|head: Seq<char>, end: Seq<char>|
            {
                &&& s == #[trigger] (head + trim(s) + end)
                &&& forall|i: int| 0 <= i < head.len() ==> white_space(#[trigger] head[i])
                &&& forall|i: int| 0 <= i < end.len() ==> white_space(#[trigger] end[i])
            },
        trim(s).len() > 0 ==> !white_space(trim(s)[0]) && !white_space(trim(s).last()),
        blank(s) <==> forall|i: int| 0 <= i < s.len() ==> white_space(#[trigger] s[i]),
{
    lemma_trim_start_parts(s);
    lemma_trim_end_parts(trim_start(s));
    let middle = trim_start(s);
    let head = s.take(s.len() - middle.len());
    let end = middle.skip(trim(s).len() as int);
    assert(s =~= head + trim(s) + end);
    if trim(s).len() > 0 {
        assert(trim(s)[0] == middle[0]);
    }
    if blank(s) {
        assert forall|i: int| 0 <= i < s.len() implies white_space(#[trigger] s[i]) by {
            if i < head.len() {
                assert(s[i] == head[i]);
            } else {
                assert(s[i] == end[i - head.len()]);
            }
        }
    } else {
        assert(s[head.len() as int] == trim(s)[0]);
    }
}

proof fn lemma_trim_start_parts(s: Seq<char>)
    ensures
        trim_start(s).len() <= s.len(),
        trim_start(s) == s.skip(s.len() - trim_start(s).len()),
        forall|i: int|
            0 <= i < s.len() - trim_start(s).len() ==> white_space(#[trigger] s[i]),
        trim_start(s).len() > 0 ==> !white_space(trim_start(s)[0]),
    decreases s.len(),
{
    if s.len() > 0 && white_space(s[0]) {
        let t = s.drop_first();
        lemma_trim_start_parts(t);
        assert(t.skip(t.len() - trim_start(t).len()) =~= s.skip(s.len() - trim_start(t).len()));
        assert forall|i: int| 0 <= i < s.len() - trim_start(s).len() implies white_space(
            #[trigger] s[i],
        ) by {
            if i > 0 {
                assert(t[i - 1] == s[i]);
            }
        }
    } else {
        assert(s.skip(0) =~= s);
    }
}

proof fn lemma_trim_end_parts(s: Seq<char>)
    ensures
        trim_end(s).len() <= s.len(),
        trim_end(s) == s.take(trim_end(s).len() as int),
        forall|i: int| trim_end(s).len() <= i < s.len() ==> white_space(#[trigger] s[i]),
        trim_end(s).len() > 0 ==> !white_space(trim_end(s).last()),
    decreases s.len(),
{
    if s.len() > 0 && white_space(s.last()) {
        let t = s.drop_last();
        lemma_trim_end_parts(t);
        assert(t.take(trim_end(t).len() as int) =~= s.take(trim_end(t).len() as int));
        assert forall|i: int| trim_end(s).len() <= i < s.len() implies white_space(
            #[trigger] s[i],
        ) by {
            if i < t.len() {
                assert(t[i] == s[i]);
            }
        }
    } else {
        assert(s.take(s.len() as int) =~= s);
    }
}

/// Of ASCII, the white space is the space and the controls from the tab to the
/// carriage return, the digits are the ten, and the letters the twenty-six of each
/// case.
pub proof fn law_the_characters_are_what_they_are_called(c: char)
    ensures
        (c as u32) < 0x80 ==> (white_space(c) <==> c == ' ' || 9 <= c as u32 <= 13),
        (c as u32) >= 0x80 ==> (white_space(c) <==> c == '\u{85}' || c == '\u{a0}' || c == '\u{1680}'
            || '\u{2000}' <= c <= '\u{200a}' || c == '\u{2028}' || c == '\u{2029}' || c == '\u{202f}'
            || c == '\u{205f}' || c == '\u{3000}'),
        digit(c) <==> 48 <= c as u32 <= 57,
        upper(c) <==> 65 <= c as u32 <= 90,
        lower(c) <==> 97 <= c as u32 <= 122,
{
}

/// What was cut is the beginning of what there was, all of it where it was short
/// enough.
pub proof fn law_a_cut_is_the_beginning(s: Seq<char>, n: nat)
    ensures
        at_most(s, n).is_prefix_of(s),
        at_most(s, n).len() <= n,
        s.len() <= n ==> at_most(s, n) == s,
        s.len() > n ==> at_most(s, n).len() == n,
{
    assert(at_most(s, n) =~= s.subrange(0, at_most(s, n).len() as int));
}

/// What is trimmed off the end is that one character, all of it there and nothing else.
pub proof fn law_only_that_character_is_trimmed(s: Seq<char>, c: char)
    ensures
        exists|end: Seq<char>|
            s == #[trigger] (trim_end_char(s, c) + end) && forall|i: int|
                0 <= i < end.len() ==> #[trigger] end[i] == c,
        trim_end_char(s, c).len() > 0 ==> trim_end_char(s, c).last() != c,
    decreases s.len(),
{
    if s.len() > 0 && s.last() == c {
        let t = s.drop_last();
        law_only_that_character_is_trimmed(t, c);
        let end = choose|end: Seq<char>|
            t == #[trigger] (trim_end_char(t, c) + end) && forall|i: int|
                0 <= i < end.len() ==> #[trigger] end[i] == c;
        assert(s =~= t.push(c));
        assert(trim_end_char(t, c) + end.push(c) =~= (trim_end_char(t, c) + end).push(c));
        assert(s == trim_end_char(s, c) + end.push(c));
    } else {
        assert(s =~= trim_end_char(s, c) + Seq::<char>::empty());
    }
}

/// The first word of a text has no white space in it, and what stands before it is
/// nothing else.
pub proof fn law_a_word_has_no_white_space(s: Seq<char>)
    ensures
        forall|i: int| 0 <= i < word(s).len() ==> !white_space(#[trigger] word(s)[i]),
        word(s).is_prefix_of(trim_start(s)),
        word(s).len() < trim_start(s).len() ==> white_space(
            trim_start(s)[word(s).len() as int],
        ),
{
    lemma_until_white_parts(trim_start(s));
}

proof fn lemma_until_white_parts(s: Seq<char>)
    ensures
        until_white(s).len() <= s.len(),
        until_white(s) == s.subrange(0, until_white(s).len() as int),
        forall|i: int| 0 <= i < until_white(s).len() ==> !white_space(#[trigger] until_white(s)[i]),
        until_white(s).len() < s.len() ==> white_space(s[until_white(s).len() as int]),
    decreases s.len(),
{
    if s.len() > 0 && !white_space(s[0]) {
        let t = s.drop_first();
        lemma_until_white_parts(t);
        assert(until_white(s) =~= s.subrange(0, until_white(s).len() as int));
        assert forall|i: int| 0 <= i < until_white(s).len() implies !white_space(
            #[trigger] until_white(s)[i],
        ) by {
            if i > 0 {
                assert(until_white(s)[i] == until_white(t)[i - 1]);
            }
        }
    } else {
        assert(until_white(s) =~= s.subrange(0, 0));
    }
}

} // verus!
