//! Character-level helpers over strings.
//!
//! Text is handled as a sequence of characters (`Seq<char>` in contracts,
//! `Vec<char>` in code), so that positions are character positions and no
//! operation depends on how a string is encoded.

use vstd::prelude::*;

verus! {

/// `String::push` of the standard library: appends one character to the end
/// of the string and leaves the characters before it unchanged.
pub assume_specification[ String::push ](s: &mut String, ch: char)
    ensures
        final(s)@ == old(s)@.push(ch),
;

/// `c` with an ASCII lower-case letter replaced by its upper-case form.
pub open spec fn ascii_upper(c: char) -> char {
    if 'a' <= c && c <= 'z' {
        ((c as u8 - 32) as u8) as char
    } else {
        c
    }
}

/// `c` with an ASCII upper-case letter replaced by its lower-case form.
pub open spec fn ascii_lower(c: char) -> char {
    if 'A' <= c && c <= 'Z' {
        ((c as u8 + 32) as u8) as char
    } else {
        c
    }
}

/// Whether `c` is an ASCII upper-case letter.
pub open spec fn is_ascii_upper(c: char) -> bool {
    'A' <= c && c <= 'Z'
}

/// Whether `c` is white space: a character with the Unicode property
/// `White_Space`.
pub open spec fn is_whitespace(c: char) -> bool {
    let u = c as u32;
    ||| (0x09 <= u && u <= 0x0D)
    ||| u == 0x20
    ||| u == 0x85
    ||| u == 0xA0
    ||| u == 0x1680
    ||| (0x2000 <= u && u <= 0x200A)
    ||| u == 0x2028
    ||| u == 0x2029
    ||| u == 0x202F
    ||| u == 0x205F
    ||| u == 0x3000
}

/// The number of places of `s` that hold `c`.
pub open spec fn count_char(s: Seq<char>, c: char) -> nat
    decreases s.len(),
{
    if s.len() == 0 {
        0
    } else {
        count_char(s.drop_last(), c) + if s.last() == c { 1nat } else { 0nat }
    }
}

/// Whether `pat` stands in `s` at position `i`.
pub open spec fn occurs_at(s: Seq<char>, pat: Seq<char>, i: int) -> bool {
    0 <= i && i + pat.len() <= s.len() && s.subrange(i, i + pat.len()) == pat
}

/// Whether `pat` stands somewhere in `s`.
pub open spec fn contains(s: Seq<char>, pat: Seq<char>) -> bool {
    exists|i: int| occurs_at(s, pat, i)
}

/// Whether `i` is the first position of `s` at which `pat` stands.
pub open spec fn first_at(s: Seq<char>, pat: Seq<char>, i: int) -> bool {
    occurs_at(s, pat, i) && forall|j: int| 0 <= j < i ==> !occurs_at(s, pat, j)
}

/// Whether `s` begins with `pat`.
pub open spec fn starts_with(s: Seq<char>, pat: Seq<char>) -> bool {
    occurs_at(s, pat, 0)
}

/// The number of characters at the start of `s` that all equal `c`.
pub open spec fn leading(s: Seq<char>, c: char) -> nat
    decreases s.len(),
{
    if s.len() > 0 && s[0] == c {
        1 + leading(s.skip(1), c)
    } else {
        0
    }
}

/// The number of characters at the end of `s` that all equal `c`.
pub open spec fn trailing(s: Seq<char>, c: char) -> nat
    decreases s.len(),
{
    if s.len() > 0 && s.last() == c {
        1 + trailing(s.drop_last(), c)
    } else {
        0
    }
}

/// `s` without the characters at its start that equal `c`.
pub open spec fn trim_start_char(s: Seq<char>, c: char) -> Seq<char> {
    s.skip(leading(s, c) as int)
}

/// `s` without the characters at its end that equal `c`.
pub open spec fn trim_end_char(s: Seq<char>, c: char) -> Seq<char> {
    s.take(s.len() - trailing(s, c))
}

/// `s` without its first character, if that one is `c`; else `s`.
pub open spec fn strip_prefix_char(s: Seq<char>, c: char) -> Seq<char> {
    if s.len() > 0 && s[0] == c {
        s.skip(1)
    } else {
        s
    }
}

/// The number of white-space characters at the start of `s`.
pub open spec fn leading_ws(s: Seq<char>) -> nat
    decreases s.len(),
{
    if s.len() > 0 && is_whitespace(s[0]) {
        1 + leading_ws(s.skip(1))
    } else {
        0
    }
}

/// The number of white-space characters at the end of `s`.
pub open spec fn trailing_ws(s: Seq<char>) -> nat
    decreases s.len(),
{
    if s.len() > 0 && is_whitespace(s.last()) {
        1 + trailing_ws(s.drop_last())
    } else {
        0
    }
}

/// `s` without the white space at its start.
pub open spec fn trim_start(s: Seq<char>) -> Seq<char> {
    s.skip(leading_ws(s) as int)
}

/// `s` without the white space at its end.
pub open spec fn trim_end(s: Seq<char>) -> Seq<char> {
    s.take(s.len() - trailing_ws(s))
}

/// `s` without the white space at either end.
pub open spec fn trim(s: Seq<char>) -> Seq<char> {
    trim_end(trim_start(s))
}

/// `s` with every ASCII upper-case letter replaced by its lower-case form.
pub open spec fn lower(s: Seq<char>) -> Seq<char> {
    s.map_values(|c: char| ascii_lower(c))
}

/// The characters that `leading` counts are the copies of `c` that `s`
/// begins with: all of them are `c`, and what follows them is not.
pub proof fn lemma_leading_bound(s: Seq<char>, c: char)
    ensures
        leading(s, c) <= s.len(),
        forall|i: int| 0 <= i < leading(s, c) ==> s[i] == c,
        leading(s, c) < s.len() ==> s[leading(s, c) as int] != c,
    decreases s.len(),
{
    if s.len() > 0 && s[0] == c {
        lemma_leading_bound(s.skip(1), c);
        assert forall|i: int| 0 <= i < leading(s, c) implies s[i] == c by {
            if i > 0 {
                assert(s.skip(1)[i - 1] == s[i]);
            }
        }
        if leading(s, c) < s.len() {
            assert(s.skip(1)[leading(s.skip(1), c) as int] == s[leading(s, c) as int]);
        }
    }
}

/// The characters that `trailing` counts are the copies of `c` that `s` ends
/// with: all of them are `c`, and what stands before them is not.
pub proof fn lemma_trailing_bound(s: Seq<char>, c: char)
    ensures
        trailing(s, c) <= s.len(),
        forall|i: int| s.len() - trailing(s, c) <= i < s.len() ==> s[i] == c,
        trailing(s, c) < s.len() ==> s[s.len() - trailing(s, c) - 1] != c,
    decreases s.len(),
{
    if s.len() > 0 && s.last() == c {
        lemma_trailing_bound(s.drop_last(), c);
        assert forall|i: int| s.len() - trailing(s, c) <= i < s.len() implies s[i] == c by {
            if i < s.len() - 1 {
                assert(s.drop_last()[i] == s[i]);
            }
        }
    }
}

/// The characters that `leading_ws` counts are the white space that `s`
/// begins with.
pub proof fn lemma_leading_ws_bound(s: Seq<char>)
    ensures
        leading_ws(s) <= s.len(),
        forall|i: int| 0 <= i < leading_ws(s) ==> is_whitespace(s[i]),
        leading_ws(s) < s.len() ==> !is_whitespace(s[leading_ws(s) as int]),
    decreases s.len(),
{
    if s.len() > 0 && is_whitespace(s[0]) {
        lemma_leading_ws_bound(s.skip(1));
        assert forall|i: int| 0 <= i < leading_ws(s) implies is_whitespace(s[i]) by {
            if i > 0 {
                assert(s.skip(1)[i - 1] == s[i]);
            }
        }
        if leading_ws(s) < s.len() {
            assert(s.skip(1)[leading_ws(s.skip(1)) as int] == s[leading_ws(s) as int]);
        }
    }
}

/// The characters that `trailing_ws` counts are the white space that `s`
/// ends with.
pub proof fn lemma_trailing_ws_bound(s: Seq<char>)
    ensures
        trailing_ws(s) <= s.len(),
        forall|i: int| s.len() - trailing_ws(s) <= i < s.len() ==> is_whitespace(s[i]),
        trailing_ws(s) < s.len() ==> !is_whitespace(s[s.len() - trailing_ws(s) - 1]),
    decreases s.len(),
{
    if s.len() > 0 && is_whitespace(s.last()) {
        lemma_trailing_ws_bound(s.drop_last());
        assert forall|i: int| s.len() - trailing_ws(s) <= i < s.len() implies is_whitespace(
            s[i],
        ) by {
            if i < s.len() - 1 {
                assert(s.drop_last()[i] == s[i]);
            }
        }
    }
}

/// The characters of `s`, in order.
pub fn chars_of(s: &str) -> (v: Vec<char>)
    ensures
        v@ == s@,
{
    let mut v: Vec<char> = Vec::new();
    let chars = s.chars();
    for c in it: chars
        invariant
            it.seq() == s@,
            v@ == s@.take(it.index() as int),
    {
        v.push(c);
    }
    v
}

/// The string made of `chars`, in order.
pub fn string_of(chars: &Vec<char>) -> (s: String)
    ensures
        s@ == chars@,
{
    let mut s = String::new();
    let mut i: usize = 0;
    while i < chars.len()
        invariant
            i <= chars.len(),
            s@ == chars@.take(i as int),
        decreases chars.len() - i,
    {
        s.push(chars[i]);
        i += 1;
    }
    s
}

/// The part of `v` from position `from` up to, not including, `to`.
pub fn slice_of(v: &Vec<char>, from: usize, to: usize) -> (r: Vec<char>)
    requires
        from <= to <= v.len(),
    ensures
        r@ == v@.subrange(from as int, to as int),
{
    let mut r: Vec<char> = Vec::new();
    let mut i: usize = from;
    while i < to
        invariant
            from <= i <= to <= v.len(),
            r@ == v@.subrange(from as int, i as int),
        decreases to - i,
    {
        r.push(v[i]);
        i += 1;
    }
    r
}

/// Whether the two hold the same characters.
pub fn same_chars(a: &Vec<char>, b: &Vec<char>) -> (r: bool)
    ensures
        r == (a@ == b@),
{
    if a.len() != b.len() {
        return false;
    }
    let mut i: usize = 0;
    while i < a.len()
        invariant
            i <= a.len(),
            a.len() == b.len(),
            a@.take(i as int) == b@.take(i as int),
        decreases a.len() - i,
    {
        if a[i] != b[i] {
            return false;
        }
        assert(a@.take(i + 1) == a@.take(i as int).push(a@[i as int]));
        assert(b@.take(i + 1) == b@.take(i as int).push(b@[i as int]));
        i += 1;
    }
    assert(a@.take(a.len() as int) == a@);
    assert(b@.take(b.len() as int) == b@);
    true
}

/// Whether `v` spells exactly the word `word`.
pub fn is_word(v: &Vec<char>, word: &str) -> (r: bool)
    ensures
        r == (v@ == word@),
{
    let w = chars_of(word);
    same_chars(v, &w)
}

/// `c` with an ASCII lower-case letter replaced by its upper-case form.
pub fn to_ascii_upper(c: char) -> (r: char)
    ensures
        r == ascii_upper(c),
{
    if 'a' <= c && c <= 'z' {
        ((c as u8) - 32) as char
    } else {
        c
    }
}

/// `c` with an ASCII upper-case letter replaced by its lower-case form.
pub fn to_ascii_lower(c: char) -> (r: char)
    ensures
        r == ascii_lower(c),
{
    if 'A' <= c && c <= 'Z' {
        ((c as u8) + 32) as char
    } else {
        c
    }
}

/// Whether `c` is an ASCII upper-case letter.
pub fn char_is_ascii_upper(c: char) -> (r: bool)
    ensures
        r == is_ascii_upper(c),
{
    'A' <= c && c <= 'Z'
}

/// Whether `c` is white space.
pub fn char_is_whitespace(c: char) -> (r: bool)
    ensures
        r == is_whitespace(c),
{
    let u: u32 = c as u32;
    (0x09 <= u && u <= 0x0D) || u == 0x20 || u == 0x85 || u == 0xA0 || u == 0x1680 || (0x2000 <= u
        && u <= 0x200A) || u == 0x2028 || u == 0x2029 || u == 0x202F || u == 0x205F || u == 0x3000
}

/// `v` in ASCII lower case.
pub fn to_lower(v: &Vec<char>) -> (r: Vec<char>)
    ensures
        r@ == lower(v@),
{
    let mut r: Vec<char> = Vec::new();
    let mut i: usize = 0;
    while i < v.len()
        invariant
            i <= v.len(),
            r@ == lower(v@).take(i as int),
        decreases v.len() - i,
    {
        r.push(to_ascii_lower(v[i]));
        i += 1;
    }
    r
}

/// How often `c` occurs in `v`.
pub fn count_of(v: &Vec<char>, c: char) -> (n: usize)
    ensures
        n == count_char(v@, c),
{
    let mut n: usize = 0;
    let mut i: usize = 0;
    while i < v.len()
        invariant
            i <= v.len(),
            n <= i,
            n == count_char(v@.take(i as int), c),
        decreases v.len() - i,
    {
        assert(v@.take(i + 1).drop_last() == v@.take(i as int));
        if v[i] == c {
            n += 1;
        }
        i += 1;
    }
    assert(v@.take(v.len() as int) == v@);
    n
}

/// Whether `pat` stands in `v` at position `i`.
pub fn matches_at(v: &Vec<char>, pat: &Vec<char>, i: usize) -> (r: bool)
    ensures
        r == occurs_at(v@, pat@, i as int),
{
    if pat.len() > v.len() || i > v.len() - pat.len() {
        return false;
    }
    let mut k: usize = 0;
    while k < pat.len()
        invariant
            k <= pat.len(),
            i + pat.len() <= v.len(),
            v@.subrange(i as int, i + k) == pat@.take(k as int),
        decreases pat.len() - k,
    {
        if v[i + k] != pat[k] {
            assert(v@.subrange(i as int, i + pat.len())[k as int] != pat@[k as int]);
            return false;
        }
        assert(v@.subrange(i as int, i + k + 1) == v@.subrange(i as int, i + k).push(
            v@[i + k],
        ));
        assert(pat@.take(k + 1) == pat@.take(k as int).push(pat@[k as int]));
        k += 1;
    }
    assert(pat@.take(pat.len() as int) == pat@);
    true
}

/// The first position of `v` at which `pat` stands, if there is one.
pub fn find(v: &Vec<char>, pat: &Vec<char>) -> (r: Option<usize>)
    ensures
        match r {
            Some(i) => first_at(v@, pat@, i as int),
            None => !contains(v@, pat@),
        },
{
    let mut i: usize = 0;
    while i <= v.len()
        invariant
            i <= v.len() + 1,
            forall|j: int| 0 <= j < i ==> !occurs_at(v@, pat@, j),
        decreases v.len() + 1 - i,
    {
        if matches_at(v, pat, i) {
            return Some(i);
        }
        if i == v.len() {
            return None;
        }
        i += 1;
    }
    None
}

/// Whether `pat` stands somewhere in `v`.
pub fn has(v: &Vec<char>, pat: &Vec<char>) -> (r: bool)
    ensures
        r == contains(v@, pat@),
{
    find(v, pat).is_some()
}

/// Whether the word `word` stands somewhere in `v`.
pub fn has_word(v: &Vec<char>, word: &str) -> (r: bool)
    ensures
        r == contains(v@, word@),
{
    let w = chars_of(word);
    has(v, &w)
}

/// Whether `v` begins with the word `word`.
pub fn begins_with(v: &Vec<char>, word: &str) -> (r: bool)
    ensures
        r == starts_with(v@, word@),
{
    let w = chars_of(word);
    matches_at(v, &w, 0)
}

/// `v` from position `n` on.
pub fn skip_chars(v: &Vec<char>, n: usize) -> (r: Vec<char>)
    requires
        n <= v.len(),
    ensures
        r@ == v@.skip(n as int),
{
    slice_of(v, n, v.len())
}

/// `v` without the characters at its start that equal `c`.
pub fn trim_start_matches(v: &Vec<char>, c: char) -> (r: Vec<char>)
    ensures
        r@ == trim_start_char(v@, c),
{
    let mut k: usize = 0;
    proof {
        lemma_leading_bound(v@, c);
    }
    while k < v.len() && v[k] == c
        invariant
            k <= v.len(),
            k <= leading(v@, c) <= v.len(),
            forall|i: int| 0 <= i < leading(v@, c) ==> v@[i] == c,
            leading(v@, c) < v@.len() ==> v@[leading(v@, c) as int] != c,
        decreases v.len() - k,
    {
        k += 1;
    }
    slice_of(v, k, v.len())
}

/// `v` without the characters at its end that equal `c`.
pub fn trim_end_matches(v: &Vec<char>, c: char) -> (r: Vec<char>)
    ensures
        r@ == trim_end_char(v@, c),
{
    let mut k: usize = v.len();
    proof {
        lemma_trailing_bound(v@, c);
    }
    while k > 0 && v[k - 1] == c
        invariant
            k <= v.len(),
            v.len() - k <= trailing(v@, c) <= v.len(),
            forall|i: int| v@.len() - trailing(v@, c) <= i < v@.len() ==> v@[i] == c,
            trailing(v@, c) < v@.len() ==> v@[v@.len() - trailing(v@, c) - 1] != c,
        decreases k,
    {
        k -= 1;
    }
    slice_of(v, 0, k)
}

/// `v` without its first character, if that one is `c`; else `v`.
pub fn strip_prefix(v: &Vec<char>, c: char) -> (r: Vec<char>)
    ensures
        r@ == strip_prefix_char(v@, c),
{
    if v.len() > 0 && v[0] == c {
        slice_of(v, 1, v.len())
    } else {
        slice_of(v, 0, v.len())
    }
}

/// The number of white-space characters at the start of `v`.
pub fn count_leading_ws(v: &Vec<char>) -> (k: usize)
    ensures
        k == leading_ws(v@),
        k <= v.len(),
{
    let mut k: usize = 0;
    proof {
        lemma_leading_ws_bound(v@);
    }
    while k < v.len() && char_is_whitespace(v[k])
        invariant
            k <= v.len(),
            k <= leading_ws(v@) <= v.len(),
            forall|i: int| 0 <= i < leading_ws(v@) ==> is_whitespace(v@[i]),
            leading_ws(v@) < v@.len() ==> !is_whitespace(v@[leading_ws(v@) as int]),
        decreases v.len() - k,
    {
        k += 1;
    }
    k
}

/// The number of white-space characters at the end of `v`.
pub fn count_trailing_ws(v: &Vec<char>) -> (k: usize)
    ensures
        k == trailing_ws(v@),
        k <= v.len(),
{
    let mut k: usize = v.len();
    proof {
        lemma_trailing_ws_bound(v@);
    }
    while k > 0 && char_is_whitespace(v[k - 1])
        invariant
            k <= v.len(),
            v.len() - k <= trailing_ws(v@) <= v.len(),
            forall|i: int| v@.len() - trailing_ws(v@) <= i < v@.len() ==> is_whitespace(v@[i]),
            trailing_ws(v@) < v@.len() ==> !is_whitespace(v@[v@.len() - trailing_ws(v@) - 1]),
        decreases k,
    {
        k -= 1;
    }
    v.len() - k
}

/// `v` without the white space at either end.
pub fn trim_chars(v: &Vec<char>) -> (r: Vec<char>)
    ensures
        r@ == trim(v@),
{
    let a = count_leading_ws(v);
    let front = slice_of(v, a, v.len());
    let b = count_trailing_ws(&front);
    slice_of(&front, 0, front.len() - b)
}

/// The character of the decimal digit `d`.
pub open spec fn digit_char(d: nat) -> char
    recommends
        d < 10,
{
    ((d + 48) as u8) as char
}

/// `n` written in decimal digits, without leading zeros.
pub open spec fn decimal(n: nat) -> Seq<char>
    decreases n,
{
    if n < 10 {
        seq![digit_char(n)]
    } else {
        decimal(n / 10).push(digit_char(n % 10))
    }
}

/// The value of `c` as a decimal digit, if it is one.
pub open spec fn digit_value(c: char) -> Option<nat> {
    if '0' <= c && c <= '9' {
        Some((c as u8 - 48) as nat)
    } else {
        None
    }
}

/// The value of `c` as a decimal digit, if it is one.
pub fn to_digit(c: char) -> (d: Option<u8>)
    ensures
        match d {
            Some(v) => digit_value(c) == Some(v as nat) && v < 10,
            None => digit_value(c) is None,
        },
{
    if '0' <= c && c <= '9' {
        Some((c as u8) - 48)
    } else {
        None
    }
}

/// Appends `n` in decimal digits to `s`.
pub fn push_decimal(s: &mut String, n: u8)
    ensures
        final(s)@ == old(s)@ + decimal(n as nat),
{
    let ghost before = s@;
    if n >= 100 {
        s.push((48 + n / 100) as char);
        s.push((48 + (n / 10) % 10) as char);
        s.push((48 + n % 10) as char);
        proof {
            let m = n as nat;
            assert(decimal(m / 10 / 10) == seq![digit_char(m / 100)]);
            assert(decimal(m / 10) == seq![digit_char(m / 100)].push(digit_char((m / 10) % 10)));
            assert(s@ == before + decimal(m));
        }
    } else if n >= 10 {
        s.push((48 + n / 10) as char);
        s.push((48 + n % 10) as char);
        proof {
            let m = n as nat;
            assert(decimal(m / 10) == seq![digit_char(m / 10)]);
            assert(s@ == before + decimal(m));
        }
    } else {
        s.push((48 + n) as char);
        assert(s@ == before + decimal(n as nat));
    }
}

/// The number of characters of `s` before its first line feed, or the
/// length of `s` where it holds none.
pub open spec fn line_len(s: Seq<char>) -> nat
    decreases s.len(),
{
    if s.len() == 0 || s[0] == '\n' {
        0
    } else {
        1 + line_len(s.skip(1))
    }
}

/// The first line of `s`, of `n` characters, without the carriage return
/// that may end it.
pub open spec fn line_body(s: Seq<char>, n: int) -> Seq<char> {
    if n > 0 && s[n - 1] == '\r' {
        s.take(n - 1)
    } else {
        s.take(n)
    }
}

/// The lines of `s` that are not empty, in order.
///
/// A line ends at a line feed; a carriage return just before that line feed
/// belongs to the line ending. What follows the last line feed is a line
/// too, as it stands.
pub open spec fn text_rows(s: Seq<char>) -> Seq<Seq<char>>
    decreases s.len(),
{
    if s.len() == 0 {
        Seq::empty()
    } else {
        let n = line_len(s) as int;
        if n >= s.len() {
            seq![s]
        } else {
            let line = line_body(s, n);
            let rest = text_rows(s.skip(n + 1));
            if line.len() == 0 {
                rest
            } else {
                seq![line] + rest
            }
        }
    }
}

/// The first line of `s` ends where `line_len` says: before that place `s`
/// holds no line feed, and at that place it holds one or ends.
pub proof fn lemma_line_len(s: Seq<char>)
    ensures
        line_len(s) <= s.len(),
        forall|i: int| 0 <= i < line_len(s) ==> s[i] != '\n',
        line_len(s) < s.len() ==> s[line_len(s) as int] == '\n',
    decreases s.len(),
{
    if !(s.len() == 0 || s[0] == '\n') {
        lemma_line_len(s.skip(1));
        assert forall|i: int| 0 <= i < line_len(s) implies s[i] != '\n' by {
            if i > 0 {
                assert(s.skip(1)[i - 1] == s[i]);
            }
        }
        if line_len(s) < s.len() {
            assert(s.skip(1)[line_len(s.skip(1)) as int] == s[line_len(s) as int]);
        }
    }
}

/// A place before which `s` holds no line feed, and which ends `s` or holds
/// one, is where the first line of `s` ends.
pub proof fn lemma_line_len_is(s: Seq<char>, n: int)
    requires
        0 <= n <= s.len(),
        forall|i: int| 0 <= i < n ==> s[i] != '\n',
        n < s.len() ==> s[n] == '\n',
    ensures
        line_len(s) == n,
{
    lemma_line_len(s);
    if line_len(s) < n {
        assert(s[line_len(s) as int] == '\n');
    } else if line_len(s) > n {
        assert(s[n] != '\n');
    }
}

/// No line of a text is empty, and none holds a line feed.
pub proof fn lemma_text_rows(s: Seq<char>)
    ensures
        forall|i: int| 0 <= i < text_rows(s).len() ==> (#[trigger] text_rows(s)[i]).len() > 0,
        forall|i: int, j: int|
            0 <= i < text_rows(s).len() && 0 <= j < text_rows(s)[i].len() ==> text_rows(s)[i][j]
                != '\n',
        text_rows(s).len() <= s.len(),
        forall|i: int|
            0 <= i < text_rows(s).len() ==> (#[trigger] text_rows(s)[i]).len() <= s.len(),
    decreases s.len(),
{
    if s.len() > 0 {
        lemma_line_len(s);
        let n = line_len(s) as int;
        if n < s.len() {
            lemma_text_rows(s.skip(n + 1));
            let line = line_body(s, n);
            let rest = text_rows(s.skip(n + 1));
            if line.len() > 0 {
                assert forall|i: int| 0 <= i < text_rows(s).len() implies (#[trigger] text_rows(
                    s,
                )[i]).len() > 0 && text_rows(s)[i].len() <= s.len() by {
                    if i > 0 {
                        assert(text_rows(s)[i] == rest[i - 1]);
                    }
                }
                assert forall|i: int, j: int|
                    0 <= i < text_rows(s).len() && 0 <= j < text_rows(s)[i].len() implies text_rows(
                    s,
                )[i][j] != '\n' by {
                    if i > 0 {
                        assert(text_rows(s)[i] == rest[i - 1]);
                    } else {
                        assert(text_rows(s)[0][j] == s[j]);
                    }
                }
            }
        }
    }
}

/// The lines of `text` that are not empty, in order.
pub fn split_rows(text: &str) -> (rows: Vec<String>)
    ensures
        rows.deep_view() == text_rows(text@),
{
    let chars = chars_of(text);
    let mut rows: Vec<String> = Vec::new();
    let mut start: usize = 0;
    assert(chars@.skip(0) == chars@);
    assert(rows.deep_view() =~= Seq::<Seq<char>>::empty());
    while start < chars.len()
        invariant
            start <= chars.len(),
            chars@ == text@,
            text_rows(text@) == rows.deep_view() + text_rows(chars@.skip(start as int)),
        decreases chars.len() - start,
    {
        let ghost tail = chars@.skip(start as int);
        let ghost before = rows.deep_view();
        let mut end: usize = start;
        while end < chars.len() && chars[end] != '\n'
            invariant
                start <= end <= chars.len(),
                forall|i: int| start <= i < end ==> chars@[i] != '\n',
            decreases chars.len() - end,
        {
            end += 1;
        }
        proof {
            assert forall|i: int| 0 <= i < end - start implies tail[i] != '\n' by {
                assert(tail[i] == chars@[start + i]);
            }
            lemma_line_len_is(tail, end - start);
        }
        if end == chars.len() {
            let row = string_of(&slice_of(&chars, start, end));
            rows.push(row);
            proof {
                assert(chars@.subrange(start as int, end as int) == tail);
                assert(chars@.skip(end as int) == Seq::<char>::empty());
                assert(rows.deep_view() =~= before.push(tail));
                assert(text_rows(text@) == rows.deep_view() + text_rows(chars@.skip(end as int)));
            }
            start = end;
        } else {
            let stop: usize = if end > start && chars[end - 1] == '\r' {
                end - 1
            } else {
                end
            };
            proof {
                assert(chars@.subrange(start as int, stop as int) == line_body(tail, end - start));
                assert(tail.skip(end - start + 1) == chars@.skip(end + 1));
            }
            if stop > start {
                let row = string_of(&slice_of(&chars, start, stop));
                rows.push(row);
                proof {
                    assert(rows.deep_view() =~= before.push(line_body(tail, end - start)));
                    assert(before.push(line_body(tail, end - start)) + text_rows(
                        chars@.skip(end + 1),
                    ) == before + (seq![line_body(tail, end - start)] + text_rows(
                        chars@.skip(end + 1),
                    )));
                }
            }
            start = end + 1;
        }
    }
    proof {
        assert(chars@.skip(start as int) == Seq::<char>::empty());
        assert(rows.deep_view() + Seq::<Seq<char>>::empty() == rows.deep_view());
    }
    rows
}

/// Whether `a` comes before `b`, or is `b`, in the order of a dictionary:
/// at the first place where the two differ `a` has the lesser character, or
/// `a` ends before they differ.
pub open spec fn lex_le(a: Seq<char>, b: Seq<char>) -> bool
    decreases a.len(),
{
    if a.len() == 0 {
        true
    } else if b.len() == 0 {
        false
    } else if a[0] != b[0] {
        a[0] < b[0]
    } else {
        lex_le(a.skip(1), b.skip(1))
    }
}

/// Of two texts one comes before the other, or they are equal.
pub proof fn lemma_lex_le_total(a: Seq<char>, b: Seq<char>)
    ensures
        lex_le(a, b) || lex_le(b, a),
    decreases a.len(),
{
    if a.len() > 0 && b.len() > 0 && a[0] == b[0] {
        lemma_lex_le_total(a.skip(1), b.skip(1));
    }
}

/// What comes before a text that comes before a third comes before the
/// third.
pub proof fn lemma_lex_le_transitive(a: Seq<char>, b: Seq<char>, c: Seq<char>)
    requires
        lex_le(a, b),
        lex_le(b, c),
    ensures
        lex_le(a, c),
    decreases a.len(),
{
    if a.len() > 0 && b.len() > 0 && c.len() > 0 {
        if a[0] == b[0] && b[0] == c[0] {
            lemma_lex_le_transitive(a.skip(1), b.skip(1), c.skip(1));
        }
    }
}

/// Every text comes before itself.
pub proof fn lemma_lex_le_reflexive(a: Seq<char>)
    ensures
        lex_le(a, a),
    decreases a.len(),
{
    if a.len() > 0 {
        lemma_lex_le_reflexive(a.skip(1));
    }
}

/// Whether `a` comes before `b`, or is `b`, in the order of a dictionary.
pub fn chars_le(a: &Vec<char>, b: &Vec<char>) -> (r: bool)
    ensures
        r == lex_le(a@, b@),
{
    let mut i: usize = 0;
    assert(a@.skip(0) == a@);
    assert(b@.skip(0) == b@);
    loop
        invariant
            i <= a.len(),
            i <= b.len(),
            lex_le(a@, b@) == lex_le(a@.skip(i as int), b@.skip(i as int)),
        decreases a.len() - i,
    {
        if i == a.len() {
            return true;
        }
        if i == b.len() {
            return false;
        }
        if a[i] != b[i] {
            return a[i] < b[i];
        }
        proof {
            assert(a@.skip(i as int).skip(1) == a@.skip(i + 1));
            assert(b@.skip(i as int).skip(1) == b@.skip(i + 1));
        }
        i += 1;
    }
}

/// Whether the text `a` comes before the text `b`, or is `b`, in the order
/// of a dictionary.
pub fn str_le(a: &str, b: &str) -> (r: bool)
    ensures
        r == lex_le(a@, b@),
{
    let x = chars_of(a);
    let y = chars_of(b);
    chars_le(&x, &y)
}

/// `s` with each occurrence of `from` replaced by `to`, the occurrences
/// found from left to right, the search going on behind each.
pub open spec fn replaced(s: Seq<char>, from: Seq<char>, to: Seq<char>) -> Seq<char>
    decreases s.len(),
{
    if from.len() == 0 || s.len() < from.len() {
        s
    } else if occurs_at(s, from, 0) {
        to + replaced(s.skip(from.len() as int), from, to)
    } else {
        seq![s[0]] + replaced(s.skip(1), from, to)
    }
}

/// `s` without the copies of `pat` that it begins with.
pub open spec fn without_prefixes(s: Seq<char>, pat: Seq<char>) -> Seq<char>
    decreases s.len(),
{
    if pat.len() > 0 && occurs_at(s, pat, 0) {
        without_prefixes(s.skip(pat.len() as int), pat)
    } else {
        s
    }
}

/// The number that the decimal digits `s` write, if `s` holds nothing but
/// decimal digits.
pub open spec fn digits_value(s: Seq<char>) -> Option<nat>
    decreases s.len(),
{
    if s.len() == 0 {
        Some(0nat)
    } else {
        match (digits_value(s.drop_last()), digit_value(s.last())) {
            (Some(v), Some(d)) => Some(v * 10 + d),
            _ => None,
        }
    }
}

/// The number below 256 that `s` writes in decimal digits, with or without
/// a plus sign before them, if `s` writes one.
pub open spec fn parsed_u8(s: Seq<char>) -> Option<u8> {
    let digits = if s.len() > 0 && s[0] == '+' {
        s.skip(1)
    } else {
        s
    };
    if digits.len() == 0 {
        None
    } else {
        match digits_value(digits) {
            Some(v) => if v <= 255 {
                Some(v as u8)
            } else {
                None
            },
            None => None,
        }
    }
}

/// More digits do not make a number smaller, and make no number of what is
/// none.
pub proof fn lemma_digits_value_grows(s: Seq<char>, n: int)
    requires
        0 <= n <= s.len(),
    ensures
        digits_value(s.take(n)) is None ==> digits_value(s) is None,
        digits_value(s) is Some ==> digits_value(s.take(n))->0 <= digits_value(s)->0,
    decreases s.len(),
{
    if n < s.len() {
        assert(s.drop_last().take(n) == s.take(n));
        lemma_digits_value_grows(s.drop_last(), n);
    } else {
        assert(s.take(n) == s);
    }
}

/// `v` with each occurrence of `from` replaced by `to`.
pub fn replace(v: &Vec<char>, from: &Vec<char>, to: &Vec<char>) -> (r: Vec<char>)
    ensures
        r@ == replaced(v@, from@, to@),
{
    let mut out: Vec<char> = Vec::new();
    let mut i: usize = 0;
    if from.len() == 0 {
        return slice_of(v, 0, v.len());
    }
    assert(v@.skip(0) == v@);
    assert(out@ + v@ == v@);
    while i < v.len()
        invariant
            i <= v.len(),
            from.len() > 0,
            replaced(v@, from@, to@) == out@ + replaced(v@.skip(i as int), from@, to@),
        decreases v.len() - i,
    {
        let ghost rest = v@.skip(i as int);
        let ghost before = out@;
        if matches_at(v, from, i) {
            proof {
                assert(rest.subrange(0, from.len() as int) == v@.subrange(
                    i as int,
                    i + from.len(),
                ));
                assert(occurs_at(rest, from@, 0));
                assert(rest.skip(from.len() as int) == v@.skip(i + from.len()));
            }
            let mut k: usize = 0;
            while k < to.len()
                invariant
                    k <= to.len(),
                    out@ == before + to@.take(k as int),
                decreases to.len() - k,
            {
                out.push(to[k]);
                assert(to@.take(k + 1) == to@.take(k as int).push(to@[k as int]));
                k += 1;
            }
            proof {
                assert(to@.take(to.len() as int) == to@);
                let tail = replaced(rest.skip(from.len() as int), from@, to@);
                assert(before + (to@ + tail) == (before + to@) + tail);
            }
            i += from.len();
        } else {
            proof {
                if rest.len() >= from.len() {
                    assert(rest.subrange(0, from.len() as int) == v@.subrange(
                        i as int,
                        i + from.len(),
                    ));
                    assert(!occurs_at(rest, from@, 0));
                }
            }
            if v.len() - i < from.len() {
                let mut k: usize = i;
                while k < v.len()
                    invariant
                        i <= k <= v.len(),
                        out@ == before + v@.subrange(i as int, k as int),
                    decreases v.len() - k,
                {
                    out.push(v[k]);
                    k += 1;
                }
                proof {
                    assert(v@.subrange(i as int, v.len() as int) == rest);
                    assert(v@.skip(v.len() as int) == Seq::<char>::empty());
                    assert(replaced(Seq::<char>::empty(), from@, to@) == Seq::<char>::empty());
                    assert(out@ + Seq::<char>::empty() == out@);
                }
                i = v.len();
            } else {
                out.push(v[i]);
                proof {
                    assert(rest.skip(1) == v@.skip(i + 1));
                    assert(before + (seq![rest[0]] + replaced(rest.skip(1), from@, to@)) == (
                    before.push(rest[0])) + replaced(rest.skip(1), from@, to@));
                }
                i += 1;
            }
        }
    }
    proof {
        assert(v@.skip(v.len() as int) == Seq::<char>::empty());
        assert(out@ + Seq::<char>::empty() == out@);
    }
    out
}

/// `v` with each occurrence of the word `from` replaced by the word `to`.
pub fn replace_word(v: &Vec<char>, from: &str, to: &str) -> (r: Vec<char>)
    ensures
        r@ == replaced(v@, from@, to@),
{
    let f = chars_of(from);
    let t = chars_of(to);
    replace(v, &f, &t)
}

/// `v` without the copies of the word `word` that it begins with.
pub fn trim_start_word(v: &Vec<char>, word: &str) -> (r: Vec<char>)
    ensures
        r@ == without_prefixes(v@, word@),
{
    let pat = chars_of(word);
    let mut i: usize = 0;
    assert(v@.skip(0) == v@);
    if pat.len() == 0 {
        return slice_of(v, 0, v.len());
    }
    while matches_at(v, &pat, i)
        invariant
            i <= v.len(),
            pat.len() > 0,
            pat@ == word@,
            without_prefixes(v@, word@) == without_prefixes(v@.skip(i as int), word@),
        decreases v.len() - i,
    {
        proof {
            let rest = v@.skip(i as int);
            assert(rest.subrange(0, pat.len() as int) == v@.subrange(i as int, i + pat.len()));
            assert(rest.skip(pat.len() as int) == v@.skip(i + pat.len()));
        }
        i += pat.len();
    }
    proof {
        let rest = v@.skip(i as int);
        if rest.len() >= pat.len() {
            assert(rest.subrange(0, pat.len() as int) == v@.subrange(i as int, i + pat.len()));
        }
    }
    slice_of(v, i, v.len())
}

/// The number below 256 that `v` writes, if it writes one.
pub fn parse_u8(v: &Vec<char>) -> (r: Option<u8>)
    ensures
        r == parsed_u8(v@),
{
    let start: usize = if v.len() > 0 && v[0] == '+' { 1 } else { 0 };
    if start == v.len() {
        return None;
    }
    let ghost digits = v@.skip(start as int);
    let mut value: u32 = 0;
    let mut i: usize = start;
    proof {
        assert(digits.take(0) == Seq::<char>::empty());
        assert(v@.skip(0) == v@);
        assert(digits == if v@.len() > 0 && v@[0] == '+' {
            v@.skip(1)
        } else {
            v@
        });
        assert(digits.len() > 0);
    }
    while i < v.len()
        invariant
            start <= i <= v.len(),
            digits == v@.skip(start as int),
            digits.len() > 0,
            digits == if v@.len() > 0 && v@[0] == '+' {
                v@.skip(1)
            } else {
                v@
            },
            value <= 255,
            digits_value(digits.take(i - start)) == Some(value as nat),
        decreases v.len() - i,
    {
        proof {
            assert(digits.take(i - start + 1).drop_last() == digits.take(i - start));
            assert(digits.take(i - start + 1).last() == v@[i as int]);
        }
        match to_digit(v[i]) {
            Some(d) => {
                value = value * 10 + d as u32;
                if value > 255 {
                    proof {
                        lemma_digits_value_grows(digits, i - start + 1);
                    }
                    return None;
                }
            },
            None => {
                proof {
                    lemma_digits_value_grows(digits, i - start + 1);
                }
                return None;
            },
        }
        i += 1;
    }
    assert(digits.take(v.len() - start) == digits);
    Some(value as u8)
}

} // verus!
