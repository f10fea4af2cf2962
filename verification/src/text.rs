//! Character and string primitives shared by the protocol and relay code.
//!
//! Strings are modelled as `Seq<char>`; every function here states its
//! result over that model.

use vstd::prelude::*;

verus! {

/// A set of characters that can be trimmed from the ends of a string.
#[derive(Clone, Copy, Debug)]
pub enum CharClass {
    /// Unicode `White_Space`.
    Whitespace,
    /// `<` and `>`.
    AngleBracket,
    /// `/`.
    Slash,
}

/// Whether `c` has the Unicode `White_Space` property.
pub open spec fn is_whitespace(c: char) -> bool {
    ||| '\u{9}' <= c <= '\u{d}'
    ||| c == ' '
    ||| c == '\u{85}'
    ||| c == '\u{a0}'
    ||| c == '\u{1680}'
    ||| '\u{2000}' <= c <= '\u{200a}'
    ||| c == '\u{2028}'
    ||| c == '\u{2029}'
    ||| c == '\u{202f}'
    ||| c == '\u{205f}'
    ||| c == '\u{3000}'
}

impl CharClass {
    /// Membership of `c` in the class.
    pub open spec fn contains(self, c: char) -> bool {
        match self {
            CharClass::Whitespace => is_whitespace(c),
            CharClass::AngleBracket => c == '<' || c == '>',
            CharClass::Slash => c == '/',
        }
    }

    /// Executable membership test.
    pub fn has(&self, c: char) -> (r: bool)
        ensures
            r == self.contains(c),
    {
        match self {
            CharClass::Whitespace => {
                ('\u{9}' <= c && c <= '\u{d}') || c == ' ' || c == '\u{85}' || c == '\u{a0}' || c
                    == '\u{1680}' || ('\u{2000}' <= c && c <= '\u{200a}') || c == '\u{2028}' || c
                    == '\u{2029}' || c == '\u{202f}' || c == '\u{205f}' || c == '\u{3000}'
            },
            CharClass::AngleBracket => c == '<' || c == '>',
            CharClass::Slash => c == '/',
        }
    }
}

/// `s` without its longest prefix of characters in `class`.
pub open spec fn trim_start(s: Seq<char>, class: CharClass) -> Seq<char>
    decreases s.len(),
{
    if s.len() > 0 && class.contains(s[0]) {
        trim_start(s.drop_first(), class)
    } else {
        s
    }
}

/// `s` without its longest suffix of characters in `class`.
pub open spec fn trim_end(s: Seq<char>, class: CharClass) -> Seq<char>
    decreases s.len(),
{
    if s.len() > 0 && class.contains(s.last()) {
        trim_end(s.drop_last(), class)
    } else {
        s
    }
}

/// `s` with characters in `class` removed from both ends.
pub open spec fn trim_both(s: Seq<char>, class: CharClass) -> Seq<char> {
    trim_end(trim_start(s, class), class)
}

/// `s` with surrounding white space removed.
pub open spec fn trim(s: Seq<char>) -> Seq<char> {
    trim_both(s, CharClass::Whitespace)
}

/// The upper-case form of an ASCII letter; any other character unchanged.
pub open spec fn ascii_upper(c: char) -> char {
    if 'a' <= c <= 'z' {
        ((c as u8) - 32) as char
    } else {
        c
    }
}

/// `s` with every ASCII letter in upper case.
pub open spec fn to_ascii_upper(s: Seq<char>) -> Seq<char> {
    Seq::new(s.len(), |i: int| ascii_upper(s[i]))
}

/// Whether `s` begins with `prefix`.
pub open spec fn has_prefix(s: Seq<char>, prefix: Seq<char>) -> bool {
    prefix.len() <= s.len() && s.subrange(0, prefix.len() as int) == prefix
}

/// Whether `s` ends with `suffix`.
pub open spec fn has_suffix(s: Seq<char>, suffix: Seq<char>) -> bool {
    suffix.len() <= s.len() && s.subrange(s.len() - suffix.len(), s.len() as int) == suffix
}

/// Whether `c` is an ASCII letter or digit.
pub open spec fn is_ascii_alphanumeric(c: char) -> bool {
    ('a' <= c <= 'z') || ('A' <= c <= 'Z') || ('0' <= c <= '9')
}

/// Index of the first occurrence of `c` in `s`, or `s.len()` if there is none.
pub open spec fn find_char(s: Seq<char>, c: char) -> nat
    decreases s.len(),
{
    if s.len() == 0 || s[0] == c {
        0
    } else {
        1 + find_char(s.drop_first(), c)
    }
}

/// The decimal digit for `d`.
pub open spec fn digit_char(d: nat) -> char
    recommends
        d < 10,
{
    (('0' as u8) + d) as char
}

/// The decimal representation of `n`, without leading zeros.
pub open spec fn decimal(n: nat) -> Seq<char>
    decreases n,
{
    if n < 10 {
        seq![digit_char(n)]
    } else {
        decimal(n / 10).push(digit_char(n % 10))
    }
}

/// `find_char` is characterised by its result: no earlier position holds `c`,
/// and the position itself does unless it is the end.
pub proof fn lemma_find_char(s: Seq<char>, c: char, i: int)
    requires
        0 <= i <= s.len(),
        forall|j: int| 0 <= j < i ==> s[j] != c,
        i < s.len() ==> s[i] == c,
    ensures
        find_char(s, c) == i,
    decreases s.len(),
{
    if s.len() == 0 || s[0] == c {
    } else {
        let t = s.drop_first();
        assert forall|j: int| 0 <= j < i - 1 implies t[j] != c by {
            assert(t[j] == s[j + 1]);
        }
        lemma_find_char(t, c, i - 1);
    }
}

/// The result of `find_char` lies within the string, and everything before
/// it differs from `c`.
pub proof fn lemma_find_char_bounds(s: Seq<char>, c: char)
    ensures
        0 <= find_char(s, c) <= s.len(),
        forall|j: int| 0 <= j < find_char(s, c) ==> s[j] != c,
        find_char(s, c) < s.len() ==> s[find_char(s, c) as int] == c,
    decreases s.len(),
{
    if s.len() == 0 || s[0] == c {
    } else {
        let t = s.drop_first();
        lemma_find_char_bounds(t, c);
        assert forall|j: int| 0 <= j < find_char(s, c) implies s[j] != c by {
            if j > 0 {
                assert(s[j] == t[j - 1]);
            }
        }
    }
}

/// `find_char` finds `c` exactly when the string holds it.
pub proof fn lemma_find_char_contains(s: Seq<char>, c: char)
    ensures
        (find_char(s, c) < s.len()) == s.contains(c),
{
    lemma_find_char_bounds(s, c);
    if find_char(s, c) < s.len() {
        assert(s[find_char(s, c) as int] == c);
    }
}

/// Collects the characters of a string slice into a vector.
pub fn str_chars(s: &str) -> (v: Vec<char>)
    ensures
        v@ == s@,
{
    let mut v: Vec<char> = Vec::new();
    for c in it: s.chars()
        invariant
            it.seq() == s@,
            v@ == it.seq().take(it.index() as int),
    {
        v.push(c);
    }
    v
}

/// Upper-cases one character if it is an ASCII letter.
pub fn upper_char(c: char) -> (r: char)
    ensures
        r == ascii_upper(c),
{
    if 'a' <= c && c <= 'z' {
        ((c as u8) - 32) as char
    } else {
        c
    }
}

/// Tests whether `chars`, read without regard to ASCII case, begins with
/// `pattern`.
pub fn starts_with_upper(chars: &[char], pattern: &[char]) -> (r: bool)
    ensures
        r == has_prefix(to_ascii_upper(chars@), pattern@),
{
    if pattern.len() > chars.len() {
        return false;
    }
    let mut i: usize = 0;
    while i < pattern.len()
        invariant
            i <= pattern.len() <= chars.len(),
            forall|j: int| 0 <= j < i ==> ascii_upper(chars@[j]) == pattern@[j],
        decreases pattern.len() - i,
    {
        if upper_char(chars[i]) != pattern[i] {
            proof {
                let up = to_ascii_upper(chars@);
                assert(up.subrange(0, pattern@.len() as int)[i as int] == ascii_upper(
                    chars@[i as int],
                ));
            }
            return false;
        }
        i += 1;
    }
    assert(to_ascii_upper(chars@).subrange(0, pattern@.len() as int) =~= pattern@);
    true
}

/// Tests whether `chars`, read without regard to ASCII case, is `pattern`.
pub fn equals_upper(chars: &[char], pattern: &[char]) -> (r: bool)
    ensures
        r == (to_ascii_upper(chars@) == pattern@),
{
    if chars.len() != pattern.len() {
        return false;
    }
    let r = starts_with_upper(chars, pattern);
    assert(to_ascii_upper(chars@).subrange(0, pattern@.len() as int) =~= to_ascii_upper(chars@));
    r
}

/// Tests two character slices for equality.
pub fn chars_equal(a: &[char], b: &[char]) -> (r: bool)
    ensures
        r == (a@ == b@),
{
    if a.len() != b.len() {
        return false;
    }
    let mut i: usize = 0;
    while i < a.len()
        invariant
            i <= a.len(),
            a.len() == b.len(),
            forall|j: int| 0 <= j < i ==> a@[j] == b@[j],
        decreases a.len() - i,
    {
        if a[i] != b[i] {
            return false;
        }
        i += 1;
    }
    assert(a@ =~= b@);
    true
}

/// Finds the first occurrence of `c` in `chars[start..end]`; `end` if
/// there is none.
pub fn find_between(chars: &[char], start: usize, end: usize, c: char) -> (r: usize)
    requires
        start <= end <= chars.len(),
    ensures
        r == start + find_char(chars@.subrange(start as int, end as int), c),
        start <= r <= end,
{
    let mut i: usize = start;
    while i < end && chars[i] != c
        invariant
            start <= i <= end <= chars.len(),
            forall|j: int| start <= j < i ==> chars@[j] != c,
        decreases end - i,
    {
        i += 1;
    }
    proof {
        let t = chars@.subrange(start as int, end as int);
        assert forall|j: int| 0 <= j < i - start implies t[j] != c by {
            assert(t[j] == chars@[start + j]);
        }
        lemma_find_char(t, c, i - start);
    }
    i
}

/// Tests whether `chars[start..end]` is `pattern`.
pub fn range_equals(chars: &[char], start: usize, end: usize, pattern: &[char]) -> (r: bool)
    requires
        start <= end <= chars.len(),
    ensures
        r == (chars@.subrange(start as int, end as int) == pattern@),
{
    if end - start != pattern.len() {
        return false;
    }
    let mut i: usize = 0;
    while i < pattern.len()
        invariant
            i <= pattern.len(),
            start <= end <= chars.len(),
            end - start == pattern.len(),
            forall|j: int| 0 <= j < i ==> chars@[start + j] == pattern@[j],
        decreases pattern.len() - i,
    {
        if chars[start + i] != pattern[i] {
            assert(chars@.subrange(start as int, end as int)[i as int] != pattern@[i as int]);
            return false;
        }
        i += 1;
    }
    assert(chars@.subrange(start as int, end as int) =~= pattern@);
    true
}

/// Finds where `chars[start..end]` begins once leading characters in
/// `class` are removed.
pub fn skip_start(chars: &[char], start: usize, end: usize, class: CharClass) -> (r: usize)
    requires
        start <= end <= chars.len(),
    ensures
        start <= r <= end,
        chars@.subrange(r as int, end as int) == trim_start(
            chars@.subrange(start as int, end as int),
            class,
        ),
{
    let mut i: usize = start;
    while i < end && class.has(chars[i])
        invariant
            start <= i <= end <= chars.len(),
            trim_start(chars@.subrange(start as int, end as int), class) == trim_start(
                chars@.subrange(i as int, end as int),
                class,
            ),
        decreases end - i,
    {
        assert(chars@.subrange(i as int, end as int).drop_first() =~= chars@.subrange(
            i as int + 1,
            end as int,
        ));
        i += 1;
    }
    i
}

/// Finds where `chars[start..end]` ends once trailing characters in
/// `class` are removed.
pub fn skip_end(chars: &[char], start: usize, end: usize, class: CharClass) -> (r: usize)
    requires
        start <= end <= chars.len(),
    ensures
        start <= r <= end,
        chars@.subrange(start as int, r as int) == trim_end(
            chars@.subrange(start as int, end as int),
            class,
        ),
{
    let mut j: usize = end;
    while j > start && class.has(chars[j - 1])
        invariant
            start <= j <= end <= chars.len(),
            trim_end(chars@.subrange(start as int, end as int), class) == trim_end(
                chars@.subrange(start as int, j as int),
                class,
            ),
        decreases j - start,
    {
        assert(chars@.subrange(start as int, j as int).drop_last() =~= chars@.subrange(
            start as int,
            j as int - 1,
        ));
        j -= 1;
    }
    j
}

/// Computes the bounds of `chars` once characters in `class` are removed
/// from both ends.
pub fn trim_bounds(chars: &[char], class: CharClass) -> (r: (usize, usize))
    ensures
        r.0 <= r.1 <= chars.len(),
        chars@.subrange(r.0 as int, r.1 as int) == trim_both(chars@, class),
{
    let n = chars.len();
    assert(chars@.subrange(0, n as int) =~= chars@);
    let i = skip_start(chars, 0, n, class);
    let j = skip_end(chars, i, n, class);
    (i, j)
}

/// Removes characters in `class` from both ends of `s`.
pub fn trim_str<'a>(s: &'a str, class: CharClass) -> (r: &'a str)
    ensures
        r@ == trim_both(s@, class),
{
    let chars = str_chars(s);
    let (i, j) = trim_bounds(chars.as_slice(), class);
    s.substring_char(i, j)
}

/// The one-character string for a decimal digit.
pub fn digit_str(d: u8) -> (r: &'static str)
    requires
        d < 10,
    ensures
        r@ == seq![digit_char(d as nat)],
{
    proof {
        reveal_strlit("0");
        reveal_strlit("1");
        reveal_strlit("2");
        reveal_strlit("3");
        reveal_strlit("4");
        reveal_strlit("5");
        reveal_strlit("6");
        reveal_strlit("7");
        reveal_strlit("8");
        reveal_strlit("9");
    }
    let r = match d {
        0 => "0",
        1 => "1",
        2 => "2",
        3 => "3",
        4 => "4",
        5 => "5",
        6 => "6",
        7 => "7",
        8 => "8",
        _ => "9",
    };
    assert(r@ =~= seq![digit_char(d as nat)]);
    r
}

/// Writes `n` in decimal.
pub fn decimal_string(n: u64) -> (r: String)
    ensures
        r@ == decimal(n as nat),
    decreases n,
{
    if n < 10 {
        String::from_str(digit_str(n as u8))
    } else {
        let mut s = decimal_string(n / 10);
        s.append(digit_str((n % 10) as u8));
        assert(s@ =~= decimal(n as nat));
        s
    }
}


/// The views of a list of strings.
pub open spec fn views_of(strings: Seq<String>) -> Seq<Seq<char>> {
    strings.map_values(|s: String| s@)
}

/// The view of an optional string.
pub open spec fn option_view(s: Option<String>) -> Option<Seq<char>> {
    match s {
        Some(s) => Some(s@),
        None => None,
    }
}

/// Tests two string slices for equality.
pub fn str_eq(a: &str, b: &str) -> (r: bool)
    ensures
        r == (a@ == b@),
{
    chars_equal(str_chars(a).as_slice(), str_chars(b).as_slice())
}

/// Tests whether `s` is one of the strings in `list`.
pub fn contains_str(list: &[String], s: &str) -> (r: bool)
    ensures
        r == views_of(list@).contains(s@),
{
    let mut i: usize = 0;
    while i < list.len()
        invariant
            i <= list.len(),
            forall|j: int| 0 <= j < i ==> views_of(list@)[j] != s@,
        decreases list.len() - i,
    {
        if str_eq(list[i].as_str(), s) {
            assert(views_of(list@)[i as int] == s@);
            return true;
        }
        i += 1;
    }
    false
}

} // verus!
