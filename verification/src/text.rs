//! Character-level text helpers: decimal and hexadecimal rendering, decimal
//! parsing with the semantics of `str::parse` for unsigned integers, substring
//! search, prefix tests and splitting on a separator.

use vstd::prelude::*;
use vstd::string::*;

verus! {

/// The ASCII character of a decimal digit.
pub open spec fn digit_char(d: nat) -> char
    recommends
        d < 10,
{
    (48 + d) as char
}

/// The numeric value of an ASCII decimal digit character.
pub open spec fn char_digit_value(c: char) -> nat {
    ((c as int) - 48) as nat
}

/// Whether `c` is one of `'0'..='9'`.
pub open spec fn is_digit_char(c: char) -> bool {
    '0' <= c && c <= '9'
}

/// The shortest decimal representation of `n`, as `format!("{}", n)` writes it.
pub open spec fn decimal_of(n: nat) -> Seq<char>
    decreases n,
{
    if n < 10 {
        seq![digit_char(n)]
    } else {
        decimal_of(n / 10).push(digit_char(n % 10))
    }
}

/// A lowercase hexadecimal digit.
pub open spec fn hex_digit_lower(d: nat) -> char {
    if d < 10 {
        (48 + d) as char
    } else {
        (87 + d) as char
    }
}

/// An uppercase hexadecimal digit.
pub open spec fn hex_digit_upper(d: nat) -> char {
    if d < 10 {
        (48 + d) as char
    } else {
        (55 + d) as char
    }
}

/// The shortest uppercase hexadecimal representation of `n`, as `format!("{:X}", n)` writes it.
pub open spec fn upper_hex_of(n: nat) -> Seq<char>
    decreases n,
{
    if n < 16 {
        seq![hex_digit_upper(n)]
    } else {
        upper_hex_of(n / 16).push(hex_digit_upper(n % 16))
    }
}

/// A byte as two lowercase hexadecimal digits, as `format!("{:02x}", b)` writes it.
pub open spec fn hex_pair(b: u8) -> Seq<char> {
    seq![hex_digit_lower((b / 16) as nat), hex_digit_lower((b % 16) as nat)]
}

/// Bytes as lowercase hexadecimal pairs separated by single spaces.
pub open spec fn hex_joined(s: Seq<u8>) -> Seq<char>
    decreases s.len(),
{
    if s.len() == 0 {
        Seq::empty()
    } else if s.len() == 1 {
        hex_pair(s[0])
    } else {
        hex_joined(s.drop_last()) + seq![' '] + hex_pair(s.last())
    }
}

/// The value of a sequence of decimal digits, most significant first.
pub open spec fn digits_value(s: Seq<char>) -> nat
    decreases s.len(),
{
    if s.len() == 0 {
        0
    } else {
        digits_value(s.drop_last()) * 10 + char_digit_value(s.last())
    }
}

/// Whether every character of `s` is a decimal digit.
pub open spec fn all_digits(s: Seq<char>) -> bool {
    forall|i: int| 0 <= i < s.len() ==> #[trigger] is_digit_char(s[i])
}

/// The digits that `str::parse` reads for an unsigned integer: one leading `'+'` is skipped.
pub open spec fn unsigned_digits(s: Seq<char>) -> Seq<char> {
    if s.len() > 0 && s[0] == '+' {
        s.drop_first()
    } else {
        s
    }
}

/// What `str::parse` gives for an unsigned integer type whose largest value is `max`:
/// an optional `'+'`, then one or more decimal digits whose value is at most `max`.
pub open spec fn parse_unsigned(s: Seq<char>, max: nat) -> Option<nat> {
    let d = unsigned_digits(s);
    if d.len() > 0 && all_digits(d) && digits_value(d) <= max {
        Some(digits_value(d))
    } else {
        None
    }
}

/// Whether `needle` occurs in `hay` as a contiguous run of characters.
pub open spec fn seq_contains_run(hay: Seq<char>, needle: Seq<char>) -> bool {
    exists|i: int|
        0 <= i && i + needle.len() <= hay.len() && #[trigger] hay.subrange(i, i + needle.len())
            == needle
}

/// Whether `s` starts with `p`.
pub open spec fn has_prefix(s: Seq<char>, p: Seq<char>) -> bool {
    p.len() <= s.len() && s.subrange(0, p.len() as int) == p
}

/// The pieces of `s` between occurrences of `sep`, as `str::split` with a character yields them.
pub open spec fn split_on(s: Seq<char>, sep: char) -> Seq<Seq<char>>
    decreases s.len(),
{
    if s.len() == 0 {
        seq![Seq::empty()]
    } else {
        let prev = split_on(s.drop_last(), sep);
        if s.last() == sep {
            prev.push(Seq::empty())
        } else {
            prev.update(prev.len() - 1, prev.last().push(s.last()))
        }
    }
}

/// The characters before the first occurrence of `sep`, or all of `s` when there is none.
pub open spec fn before_first(s: Seq<char>, sep: char) -> Seq<char>
    decreases s.len(),
{
    if s.len() == 0 {
        Seq::empty()
    } else if s[0] == sep {
        Seq::empty()
    } else {
        seq![s[0]] + before_first(s.drop_first(), sep)
    }
}

/// The lowercase form of a string, as `str::to_lowercase` computes it.
pub uninterp spec fn lowercase_of(s: Seq<char>) -> Seq<char>;

/// Whether every character of `s` is ASCII.
pub open spec fn is_ascii_text(s: Seq<char>) -> bool {
    forall|i: int| 0 <= i < s.len() ==> (#[trigger] s[i] as u32) < 128
}

/// The ASCII lowercase form of a character: `'A'..='Z'` become `'a'..='z'`.
pub open spec fn ascii_lower_char(c: char) -> char {
    if 'A' <= c && c <= 'Z' {
        ((c as u32) + 32) as char
    } else {
        c
    }
}

/// The ASCII uppercase form of a character: `'a'..='z'` become `'A'..='Z'`.
pub open spec fn ascii_upper_char(c: char) -> char {
    if 'a' <= c && c <= 'z' {
        ((c as u32) - 32) as char
    } else {
        c
    }
}

/// The ASCII lowercase form of a text.
pub open spec fn ascii_lower(s: Seq<char>) -> Seq<char> {
    Seq::new(s.len(), |i: int| ascii_lower_char(s[i]))
}

/// The ASCII uppercase form of a text.
pub open spec fn ascii_upper(s: Seq<char>) -> Seq<char> {
    Seq::new(s.len(), |i: int| ascii_upper_char(s[i]))
}

/// Whether every character of `s` is ASCII or a CJK unified ideograph (U+4E00 to
/// U+9FFF). Ideographs have no case, so case mapping changes only the ASCII letters
/// of such text.
pub open spec fn is_ascii_or_ideograph_text(s: Seq<char>) -> bool {
    forall|i: int| 0 <= i < s.len() ==> (#[trigger] s[i] as u32) < 128 || (0x4e00 <= (s[i] as u32) <= 0x9fff)
}

/// Lowercasing ASCII-or-ideograph text twice is lowercasing it once.
pub proof fn lemma_lowered_idempotent(s: Seq<char>)
    requires
        is_ascii_or_ideograph_text(s),
    ensures
        is_ascii_or_ideograph_text(lowered(s)),
        lowered(lowered(s)) == lowered(s),
{
    let l = ascii_lower(s);
    assert forall|i: int| 0 <= i < l.len() implies (#[trigger] l[i] as u32) < 128 || (0x4e00 <= (l[i] as u32) <= 0x9fff) by {
        assert(l[i] == ascii_lower_char(s[i]));
    }
    assert(ascii_lower(l) =~= l);
}

/// The lowercase form of a text: the ASCII mapping for text of ASCII and CJK
/// ideographs, else the Unicode mapping of `str::to_lowercase`.
pub open spec fn lowered(s: Seq<char>) -> Seq<char> {
    if is_ascii_or_ideograph_text(s) {
        ascii_lower(s)
    } else {
        lowercase_of(s)
    }
}

/// The uppercase form of a text: the ASCII mapping for text of ASCII and CJK
/// ideographs, else the Unicode mapping of `str::to_uppercase`.
pub open spec fn raised(s: Seq<char>) -> Seq<char> {
    if is_ascii_or_ideograph_text(s) {
        ascii_upper(s)
    } else {
        uppercase_of(s)
    }
}

/// Appends one character to a `String` (`String::push`).
/// Trusted: the contract states that the new contents are the old ones followed by `c`.
#[verifier::external_body]
pub(crate) fn push_char(s: &mut String, c: char)
    ensures
        final(s)@ == old(s)@.push(c),
{
    s.push(c);
}

/// The lowercase form of `s` (`str::to_lowercase`).
/// Trusted: the result is named by `lowercase_of`; Unicode case mapping is not written
/// out here. On text of ASCII and CJK ideographs the contract states the mapping:
/// `'A'..='Z'` become `'a'..='z'` and every other character stays (ideographs have no
/// case).
#[verifier::external_body]
pub(crate) fn to_lowercase(s: &str) -> (r: String)
    ensures
        r@ == lowercase_of(s@),
        is_ascii_or_ideograph_text(s@) ==> r@ == ascii_lower(s@),
{
    s.to_lowercase()
}

/// The uppercase form of a string, as `str::to_uppercase` computes it.
pub uninterp spec fn uppercase_of(s: Seq<char>) -> Seq<char>;

/// The uppercase form of `s` (`str::to_uppercase`).
/// Trusted: the result is named by `uppercase_of`; Unicode case mapping is not written
/// out here. On text of ASCII and CJK ideographs the contract states the mapping:
/// `'a'..='z'` become `'A'..='Z'` and every other character stays (ideographs have no
/// case).
#[verifier::external_body]
pub(crate) fn to_uppercase(s: &str) -> (r: String)
    ensures
        r@ == uppercase_of(s@),
        is_ascii_or_ideograph_text(s@) ==> r@ == ascii_upper(s@),
{
    s.to_uppercase()
}

/// A fresh `String` holding the characters of `s`.
pub fn string_of(s: &str) -> (r: String)
    ensures
        r@ == s@,
{
    String::from_str(s)
}

/// The ASCII digit for `d`.
pub fn digit_to_char(d: u64) -> (c: char)
    requires
        d < 10,
    ensures
        c == digit_char(d as nat),
{
    let b: u8 = 48u8 + (d as u8);
    b as char
}

/// Appends the decimal representation of `n` to `out`.
pub fn push_decimal(out: &mut String, n: u64)
    ensures
        final(out)@ == old(out)@ + decimal_of(n as nat),
    decreases n,
{
    if n < 10 {
        push_char(out, digit_to_char(n));
        assert(decimal_of(n as nat) == seq![digit_char(n as nat)]);
    } else {
        push_decimal(out, n / 10);
        push_char(out, digit_to_char(n % 10));
        assert(decimal_of(n as nat) == decimal_of((n / 10) as nat).push(digit_char((n % 10) as nat)));
    }
}

/// The decimal representation of `n` (`n.to_string()`).
pub fn u64_to_decimal(n: u64) -> (s: String)
    ensures
        s@ == decimal_of(n as nat),
{
    let mut s = String::new();
    push_decimal(&mut s, n);
    assert(s@ == Seq::<char>::empty() + decimal_of(n as nat));
    s
}

/// The uppercase hexadecimal digit for `d`.
pub fn hex_upper_char(d: u64) -> (c: char)
    requires
        d < 16,
    ensures
        c == hex_digit_upper(d as nat),
{
    if d < 10 {
        let b: u8 = 48u8 + (d as u8);
        b as char
    } else {
        let b: u8 = 55u8 + (d as u8);
        b as char
    }
}

/// The lowercase hexadecimal digit for `d`.
pub fn hex_lower_char(d: u8) -> (c: char)
    requires
        d < 16,
    ensures
        c == hex_digit_lower(d as nat),
{
    if d < 10 {
        let b: u8 = 48u8 + d;
        b as char
    } else {
        let b: u8 = 87u8 + d;
        b as char
    }
}

/// Appends the uppercase hexadecimal representation of `n` to `out`.
pub fn push_upper_hex(out: &mut String, n: u64)
    ensures
        final(out)@ == old(out)@ + upper_hex_of(n as nat),
    decreases n,
{
    if n < 16 {
        push_char(out, hex_upper_char(n));
        assert(upper_hex_of(n as nat) == seq![hex_digit_upper(n as nat)]);
    } else {
        push_upper_hex(out, n / 16);
        push_char(out, hex_upper_char(n % 16));
        assert(upper_hex_of(n as nat) == upper_hex_of((n / 16) as nat).push(
            hex_digit_upper((n % 16) as nat),
        ));
    }
}

/// Bytes as lowercase hexadecimal pairs separated by single spaces
/// (`"{:02x}"` for each byte, joined by `" "`).
pub fn format_hex_bytes(data: &[u8]) -> (s: String)
    ensures
        s@ == hex_joined(data@),
{
    let mut s = String::new();
    let n = data.len();
    let mut i: usize = 0;
    while i < n
        invariant
            n == data@.len(),
            i <= n,
            s@ == hex_joined(data@.subrange(0, i as int)),
        decreases n - i,
    {
        let b = data[i];
        let ghost prev = s@;
        if i > 0 {
            push_char(&mut s, ' ');
        }
        push_char(&mut s, hex_lower_char(b / 16));
        push_char(&mut s, hex_lower_char(b % 16));
        proof {
            let pre = data@.subrange(0, i as int);
            let cur = data@.subrange(0, i + 1);
            assert(cur.drop_last() == pre);
            assert(cur.last() == b);
            if i == 0 {
                assert(pre.len() == 0);
                assert(hex_joined(cur) == hex_pair(b));
            } else {
                assert(hex_joined(cur) == hex_joined(pre) + seq![' '] + hex_pair(b));
            }
        }
        i = i + 1;
    }
    assert(data@.subrange(0, n as int) == data@);
    s
}

/// Whether two strings hold the same characters.
pub fn str_eq(a: &str, b: &str) -> (r: bool)
    ensures
        r == (a@ == b@),
{
    let n = a.unicode_len();
    let m = b.unicode_len();
    if n != m {
        return false;
    }
    let mut i: usize = 0;
    while i < n
        invariant
            n == a@.len(),
            m == b@.len(),
            n == m,
            i <= n,
            forall|j: int| 0 <= j < i ==> a@[j] == b@[j],
        decreases n - i,
    {
        if a.get_char(i) != b.get_char(i) {
            return false;
        }
        i = i + 1;
    }
    assert(a@ =~= b@);
    true
}

/// Whether `s` starts with `p` (`str::starts_with`).
pub fn starts_with(s: &str, p: &str) -> (r: bool)
    ensures
        r == has_prefix(s@, p@),
{
    let n = s.unicode_len();
    let m = p.unicode_len();
    if m > n {
        return false;
    }
    let mut i: usize = 0;
    while i < m
        invariant
            n == s@.len(),
            m == p@.len(),
            m <= n,
            i <= m,
            forall|j: int| 0 <= j < i ==> s@[j] == p@[j],
        decreases m - i,
    {
        if s.get_char(i) != p.get_char(i) {
            assert(s@.subrange(0, m as int)[i as int] != p@[i as int]);
            return false;
        }
        i = i + 1;
    }
    assert(s@.subrange(0, m as int) =~= p@);
    true
}

/// The characters of `s` from position `from` to the end.
pub fn suffix_from(s: &str, from: usize) -> (r: String)
    requires
        from <= s@.len(),
    ensures
        r@ == s@.subrange(from as int, s@.len() as int),
{
    let n = s.unicode_len();
    let sub = s.substring_char(from, n);
    string_of(sub)
}

/// Whether `needle` occurs in `hay` (`str::contains` with a string pattern).
pub fn contains_run(hay: &str, needle: &str) -> (r: bool)
    ensures
        r == seq_contains_run(hay@, needle@),
{
    let n = hay.unicode_len();
    let m = needle.unicode_len();
    if m > n {
        assert(!seq_contains_run(hay@, needle@));
        return false;
    }
    let mut i: usize = 0;
    while i <= n - m
        invariant
            n == hay@.len(),
            m == needle@.len(),
            m <= n,
            i <= n - m + 1,
            forall|k: int| 0 <= k < i ==> #[trigger] hay@.subrange(k, k + m) != needle@,
        decreases n - m + 1 - i,
    {
        let mut j: usize = 0;
        let mut same = true;
        while j < m
            invariant
                n == hay@.len(),
                m == needle@.len(),
                m <= n,
                i + m <= n,
                j <= m,
                same == (forall|t: int| 0 <= t < j ==> hay@[i + t] == needle@[t]),
            decreases m - j,
        {
            if hay.get_char(i + j) != needle.get_char(j) {
                same = false;
            }
            j = j + 1;
        }
        if same {
            assert(hay@.subrange(i as int, i + m) =~= needle@);
            return true;
        } else {
            assert(hay@.subrange(i as int, i + m) != needle@) by {
                let t = choose|t: int| 0 <= t < m && hay@[i + t] != needle@[t];
                assert(hay@.subrange(i as int, i + m)[t] == hay@[i + t]);
            }
        }
        i = i + 1;
    }
    assert(!seq_contains_run(hay@, needle@)) by {
        if seq_contains_run(hay@, needle@) {
            let k = choose|k: int|
                0 <= k && k + m <= n && #[trigger] hay@.subrange(k, k + m) == needle@;
            assert(k < i);
        }
    }
    false
}

/// The decimal form of a number is a non-empty run of digits whose value is the number.
pub proof fn lemma_decimal_digits(n: nat)
    ensures
        decimal_of(n).len() > 0,
        all_digits(decimal_of(n)),
        digits_value(decimal_of(n)) == n,
    decreases n,
{
    if n < 10 {
        let s = decimal_of(n);
        assert(s.drop_last() =~= Seq::<char>::empty());
        let c: char = (48 + n) as char;
        assert(c as int == 48 + n);
        assert(digits_value(s.drop_last()) == 0);
        assert(is_digit_char(s[0]));
    } else {
        lemma_decimal_digits(n / 10);
        let p = decimal_of(n / 10);
        let s = decimal_of(n);
        assert(s.drop_last() == p);
        let c: char = (48 + n % 10) as char;
        assert(c as int == 48 + n % 10);
        assert forall|i: int| 0 <= i < s.len() implies #[trigger] is_digit_char(s[i]) by {
            if i < p.len() {
                assert(s[i] == p[i]);
                assert(is_digit_char(p[i]));
            }
        }
    }
}

/// Splitting always yields at least one piece.
pub proof fn lemma_split_nonempty(s: Seq<char>, sep: char)
    ensures
        split_on(s, sep).len() >= 1,
    decreases s.len(),
{
    if s.len() > 0 {
        lemma_split_nonempty(s.drop_last(), sep);
    }
}

/// Appending text without a separator extends the last piece.
pub proof fn lemma_split_append(x: Seq<char>, b: Seq<char>, sep: char)
    requires
        !b.contains(sep),
    ensures
        split_on(x + b, sep) == split_on(x, sep).update(
            split_on(x, sep).len() - 1,
            split_on(x, sep).last() + b,
        ),
    decreases b.len(),
{
    lemma_split_nonempty(x, sep);
    let px = split_on(x, sep);
    if b.len() == 0 {
        assert(x + b =~= x);
        assert(px.last() + b =~= px.last());
        assert(px.update(px.len() - 1, px.last()) =~= px);
    } else {
        let bp = b.drop_last();
        let c = b.last();
        assert(!bp.contains(sep)) by {
            if bp.contains(sep) {
                let i = choose|i: int| 0 <= i < bp.len() && bp[i] == sep;
                assert(b[i] == sep);
            }
        }
        assert(c != sep) by {
            assert(b[b.len() - 1] == c);
        }
        lemma_split_append(x, bp, sep);
        let xb = x + b;
        assert(xb.drop_last() =~= x + bp);
        assert(xb.last() == c);
        lemma_split_nonempty(x + bp, sep);
        let prev = split_on(x + bp, sep);
        assert(split_on(xb, sep) == prev.update(prev.len() - 1, prev.last().push(c)));
        assert(prev.last() == px.last() + bp);
        assert((px.last() + bp).push(c) =~= px.last() + b);
        assert(split_on(xb, sep) =~= px.update(px.len() - 1, px.last() + b));
    }
}

/// Text without a separator, a separator and more text without one split into
/// exactly those two pieces.
pub proof fn lemma_split_pair(a: Seq<char>, b: Seq<char>, sep: char)
    requires
        !a.contains(sep),
        !b.contains(sep),
    ensures
        split_on(a + seq![sep] + b, sep) == seq![a, b],
{
    lemma_split_append(Seq::<char>::empty(), a, sep);
    assert(Seq::<char>::empty() + a =~= a);
    assert(split_on(Seq::<char>::empty(), sep) == seq![Seq::<char>::empty()]);
    assert(split_on(a, sep) =~= seq![a]);
    let asep = a.push(sep);
    assert(asep.drop_last() =~= a);
    assert(split_on(asep, sep) =~= seq![a, Seq::<char>::empty()]);
    assert(a + seq![sep] =~= asep);
    lemma_split_append(asep, b, sep);
    assert(Seq::<char>::empty() + b =~= b);
    assert(split_on(asep + b, sep) =~= seq![a, b]);
}

/// Parsing the decimal form of a number that fits gives the number back.
pub proof fn lemma_parse_decimal(n: nat, max: nat)
    requires
        n <= max,
    ensures
        parse_unsigned(decimal_of(n), max) == Some(n),
{
    lemma_decimal_digits(n);
    let s = decimal_of(n);
    assert(is_digit_char(s[0]));
    assert(unsigned_digits(s) == s);
}

/// A prefix of a digit run has a value no larger than the whole run.
pub proof fn lemma_digits_value_prefix(s: Seq<char>, i: int)
    requires
        0 <= i <= s.len(),
    ensures
        digits_value(s.subrange(0, i)) <= digits_value(s),
    decreases s.len() - i,
{
    if i < s.len() {
        lemma_digits_value_prefix(s, i + 1);
        let a = s.subrange(0, i + 1);
        assert(a.drop_last() == s.subrange(0, i));
    } else {
        assert(s.subrange(0, i) == s);
    }
}

/// Parses `s` as an unsigned decimal number no larger than `max`, as `str::parse`
/// does for an unsigned integer type whose largest value is `max`.
pub fn parse_unsigned_max(s: &str, max: u64) -> (r: Option<u64>)
    requires
        max <= u32::MAX,
    ensures
        match parse_unsigned(s@, max as nat) {
            Some(v) => r == Some(v as u64),
            None => r is None,
        },
{
    let n = s.unicode_len();
    let mut start: usize = 0;
    if n > 0 && s.get_char(0) == '+' {
        start = 1;
    }
    let ghost d = unsigned_digits(s@);
    assert(d == s@.subrange(start as int, n as int));
    if start == n {
        return None;
    }
    let mut value: u64 = 0;
    let mut i: usize = start;
    while i < n
        invariant
            n == s@.len(),
            start <= i <= n,
            d == s@.subrange(start as int, n as int),
            d == unsigned_digits(s@),
            d.len() > 0,
            max <= u32::MAX,
            value <= max,
            all_digits(d.subrange(0, i - start)),
            value == digits_value(d.subrange(0, i - start)),
        decreases n - i,
    {
        let c = s.get_char(i);
        let k = i - start;
        let ghost pre = d.subrange(0, k as int);
        let ghost cur = d.subrange(0, k + 1);
        assert(cur.drop_last() == pre);
        assert(cur.last() == c);
        if !('0' <= c && c <= '9') {
            assert(!all_digits(d)) by {
                assert(d[k as int] == c);
                assert(!is_digit_char(d[k as int]));
            }
            assert(parse_unsigned(s@, max as nat) is None);
            return None;
        }
        let digit: u64 = (c as u32 - 48) as u64;
        let next: u64 = value * 10 + digit;
        assert(next == digits_value(cur));
        if next > max {
            proof {
                lemma_digits_value_prefix(d, k + 1);
                assert(digits_value(d) > max);
                assert(parse_unsigned(s@, max as nat) is None);
            }
            return None;
        }
        value = next;
        i = i + 1;
        assert(all_digits(d.subrange(0, i - start))) by {
            assert forall|j: int| 0 <= j < cur.len() implies #[trigger] is_digit_char(cur[j]) by {
                if j < k {
                    assert(cur[j] == pre[j]);
                }
            }
        }
    }
    assert(d.subrange(0, n - start) == d);
    Some(value)
}

/// `s.parse::<u8>().ok()`.
pub fn parse_u8(s: &str) -> (r: Option<u8>)
    ensures
        match parse_unsigned(s@, u8::MAX as nat) {
            Some(v) => r == Some(v as u8),
            None => r is None,
        },
{
    match parse_unsigned_max(s, 255) {
        Some(v) => Some(v as u8),
        None => None,
    }
}

/// `s.parse::<u16>().ok()`.
pub fn parse_u16(s: &str) -> (r: Option<u16>)
    ensures
        match parse_unsigned(s@, u16::MAX as nat) {
            Some(v) => r == Some(v as u16),
            None => r is None,
        },
{
    match parse_unsigned_max(s, 65535) {
        Some(v) => Some(v as u16),
        None => None,
    }
}

/// `s.parse::<u32>().ok()`.
pub fn parse_u32(s: &str) -> (r: Option<u32>)
    ensures
        match parse_unsigned(s@, u32::MAX as nat) {
            Some(v) => r == Some(v as u32),
            None => r is None,
        },
{
    match parse_unsigned_max(s, 4294967295) {
        Some(v) => Some(v as u32),
        None => None,
    }
}

/// Splits `s` on every occurrence of `sep` (`s.split(sep).collect()`).
pub fn split_char(s: &str, sep: char) -> (parts: Vec<String>)
    ensures
        parts@.len() == split_on(s@, sep).len(),
        forall|k: int| 0 <= k < parts@.len() ==> #[trigger] parts@[k]@ == split_on(s@, sep)[k],
{
    let n = s.unicode_len();
    let mut parts: Vec<String> = Vec::new();
    let mut cur = String::new();
    let mut i: usize = 0;
    proof {
        assert(s@.subrange(0, 0) == Seq::<char>::empty());
    }
    while i < n
        invariant
            n == s@.len(),
            i <= n,
            parts@.len() + 1 == split_on(s@.subrange(0, i as int), sep).len(),
            forall|k: int|
                0 <= k < parts@.len() ==> #[trigger] parts@[k]@ == split_on(
                    s@.subrange(0, i as int),
                    sep,
                )[k],
            cur@ == split_on(s@.subrange(0, i as int), sep).last(),
        decreases n - i,
    {
        let c = s.get_char(i);
        let ghost pre = s@.subrange(0, i as int);
        let ghost next = s@.subrange(0, i + 1);
        assert(next.drop_last() == pre);
        assert(next.last() == c);
        if c == sep {
            let finished = cur;
            parts.push(finished);
            cur = String::new();
        } else {
            push_char(&mut cur, c);
        }
        i = i + 1;
    }
    assert(s@.subrange(0, n as int) == s@);
    let ghost whole = split_on(s@, sep);
    parts.push(cur);
    proof {
        assert forall|k: int| 0 <= k < parts@.len() implies #[trigger] parts@[k]@ == whole[k] by {
        }
    }
    parts
}

/// The characters of `s` before the first `sep`, or all of `s` when it has none
/// (`s.splitn(2, sep).next().unwrap_or(..)`; the first piece always exists).
pub fn text_before(s: &str, sep: char) -> (r: String)
    ensures
        r@ == before_first(s@, sep),
{
    let n = s.unicode_len();
    let mut i: usize = 0;
    let mut out = String::new();
    assert(s@.subrange(0, n as int) == s@);
    assert(out@ + s@ == s@);
    while i < n
        invariant
            n == s@.len(),
            i <= n,
            forall|j: int| 0 <= j < i ==> s@[j] != sep,
            out@ == s@.subrange(0, i as int),
            before_first(s@, sep) == out@ + before_first(s@.subrange(i as int, n as int), sep),
        decreases n - i,
    {
        let c = s.get_char(i);
        if c == sep {
            assert(before_first(s@.subrange(i as int, n as int), sep) == Seq::<char>::empty());
            assert(out@ + Seq::<char>::empty() == out@);
            return out;
        }
        let ghost rest = s@.subrange(i as int, n as int);
        assert(rest.drop_first() == s@.subrange(i + 1, n as int));
        assert(before_first(rest, sep) == seq![c] + before_first(rest.drop_first(), sep));
        push_char(&mut out, c);
        assert(out@ == s@.subrange(0, i + 1));
        i = i + 1;
    }
    assert(before_first(s@.subrange(n as int, n as int), sep) == Seq::<char>::empty());
    assert(out@ + Seq::<char>::empty() == out@);
    out
}

} // verus!
