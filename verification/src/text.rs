//! Text helpers shared by the parsers: Unicode trimming, splitting, hexadecimal
//! and decimal conversion.
//!
//! A string is worked on as the sequence of its characters. Executable functions
//! take `&[char]`, so that a part of a text is a sub-slice of it.

use vstd::prelude::*;
use vstd::slice::slice_subrange;

verus! {

// ---------------------------------------------------------------------------
// Characters
// ---------------------------------------------------------------------------

/// The characters with the Unicode `White_Space` property.
pub open spec fn is_space(c: char) -> bool {
    let n = c as u32;
    ||| 0x9 <= n <= 0xD
    ||| n == 0x20
    ||| n == 0x85
    ||| n == 0xA0
    ||| n == 0x1680
    ||| 0x2000 <= n <= 0x200A
    ||| n == 0x2028
    ||| n == 0x2029
    ||| n == 0x202F
    ||| n == 0x205F
    ||| n == 0x3000
}

/// ASCII whitespace: space, tab, line feed, form feed, carriage return.
pub open spec fn is_ascii_space(c: char) -> bool {
    c == ' ' || c == '\t' || c == '\n' || c == '\x0C' || c == '\r'
}

/// An ASCII decimal digit.
pub open spec fn is_digit(c: char) -> bool {
    '0' <= c <= '9'
}

/// An ASCII hexadecimal digit of either case.
pub open spec fn is_hex(c: char) -> bool {
    ||| '0' <= c <= '9'
    ||| 'a' <= c <= 'f'
    ||| 'A' <= c <= 'F'
}

/// The value of a hexadecimal digit (0 for any other character).
pub open spec fn hex_val(c: char) -> int {
    if '0' <= c <= '9' {
        c as int - '0' as int
    } else if 'a' <= c <= 'f' {
        c as int - 'a' as int + 10
    } else if 'A' <= c <= 'F' {
        c as int - 'A' as int + 10
    } else {
        0
    }
}

/// The lowercase hexadecimal digit of a value below 16.
pub open spec fn hex_digit(n: int) -> char {
    if n < 10 {
        ('0' as int + n) as char
    } else {
        ('a' as int + n - 10) as char
    }
}

/// ASCII lowercase; every character but `A`..`Z` is kept.
pub open spec fn lower(c: char) -> char {
    if 'A' <= c <= 'Z' {
        (c as int + 32) as char
    } else {
        c
    }
}

/// Tells Unicode whitespace.
pub fn char_is_space(c: char) -> (r: bool)
    ensures
        r == is_space(c),
{
    let n: u32 = c as u32;
    (0x9 <= n && n <= 0xD) || n == 0x20 || n == 0x85 || n == 0xA0 || n == 0x1680 || (0x2000 <= n
        && n <= 0x200A) || n == 0x2028 || n == 0x2029 || n == 0x202F || n == 0x205F || n == 0x3000
}

/// Tells ASCII whitespace.
pub fn char_is_ascii_space(c: char) -> (r: bool)
    ensures
        r == is_ascii_space(c),
{
    c == ' ' || c == '\t' || c == '\n' || c == '\x0C' || c == '\r'
}

/// Tells a decimal digit.
pub fn char_is_digit(c: char) -> (r: bool)
    ensures
        r == is_digit(c),
{
    '0' <= c && c <= '9'
}

/// Tells a hexadecimal digit.
pub fn char_is_hex(c: char) -> (r: bool)
    ensures
        r == is_hex(c),
{
    ('0' <= c && c <= '9') || ('a' <= c && c <= 'f') || ('A' <= c && c <= 'F')
}

/// The value of a hexadecimal digit.
pub fn char_hex_val(c: char) -> (r: u8)
    ensures
        r == hex_val(c),
        r < 16,
{
    if '0' <= c && c <= '9' {
        (c as u32 - 48) as u8
    } else if 'a' <= c && c <= 'f' {
        (c as u32 - 97 + 10) as u8
    } else if 'A' <= c && c <= 'F' {
        (c as u32 - 65 + 10) as u8
    } else {
        0
    }
}

/// The lowercase digit of a nibble.
pub fn char_hex_digit(n: u8) -> (r: char)
    requires
        n < 16,
    ensures
        r == hex_digit(n as int),
        is_hex(r),
{
    if n < 10 {
        (48u8 + n) as char
    } else {
        (97u8 + (n - 10)) as char
    }
}

/// ASCII lowercase of one character.
pub fn char_lower(c: char) -> (r: char)
    ensures
        r == lower(c),
{
    if 'A' <= c && c <= 'Z' {
        ((c as u32 + 32) as u8) as char
    } else {
        c
    }
}

// ---------------------------------------------------------------------------
// Strings and character sequences
// ---------------------------------------------------------------------------

/// `String::push` appends one character to the end of the string.
pub assume_specification[ String::push ](s: &mut String, c: char)
    ensures
        final(s)@ == old(s)@.push(c),
;

/// The characters of a string, in order.
pub fn chars_of(s: &str) -> (r: Vec<char>)
    ensures
        r@ == s@,
{
    let mut out: Vec<char> = Vec::new();
    for c in it: s.chars()
        invariant
            out@ == s@.take(it.index()),
            it.seq() == s@,
    {
        assert(s@.take(it.index() + 1) =~= s@.take(it.index()).push(c));
        out.push(c);
    }
    assert(s@.take(s@.len() as int) =~= s@);
    out
}

/// The string made of the given characters.
pub fn string_of(v: &[char]) -> (r: String)
    ensures
        r@ == v@,
{
    let mut out = String::new();
    let mut i: usize = 0;
    while i < v.len()
        invariant
            i <= v.len(),
            out@ =~= v@.take(i as int),
        decreases v.len() - i,
    {
        out.push(v[i]);
        i = i + 1;
    }
    assert(v@.take(v@.len() as int) =~= v@);
    out
}

/// A copy of a string slice.
pub fn owned(s: &str) -> (r: String)
    ensures
        r@ == s@,
{
    s.to_owned()
}

/// The view of an optional string.
pub open spec fn opt_text(s: Option<String>) -> Option<Seq<char>> {
    match s {
        Some(t) => Some(t@),
        None => None,
    }
}

/// A copy of an optional string.
pub fn clone_opt_text(s: &Option<String>) -> (r: Option<String>)
    ensures
        opt_text(r) == opt_text(*s),
{
    match s {
        Some(t) => Some(t.clone()),
        None => None,
    }
}

/// Appends every character of `s` to `out`.
pub fn push_str(out: &mut String, s: &str)
    ensures
        final(out)@ == old(out)@ + s@,
{
    let v = chars_of(s);
    push_chars(out, v.as_slice());
}

/// Appends every character of `v` to `out`.
pub fn push_chars(out: &mut String, v: &[char])
    ensures
        final(out)@ == old(out)@ + v@,
{
    let ghost start = out@;
    let mut i: usize = 0;
    while i < v.len()
        invariant
            i <= v.len(),
            out@ =~= start + v@.take(i as int),
        decreases v.len() - i,
    {
        out.push(v[i]);
        i = i + 1;
    }
    assert(v@.take(v@.len() as int) =~= v@);
}

/// Equality of two character sequences.
pub fn same_chars(a: &[char], b: &[char]) -> (r: bool)
    ensures
        r == (a@ == b@),
{
    if a.len() != b.len() {
        return false;
    }
    let mut i: usize = 0;
    while i < a.len()
        invariant
            i <= a.len(),
            a.len() == b.len(),
            forall|k: int| 0 <= k < i ==> a@[k] == b@[k],
        decreases a.len() - i,
    {
        if a[i] != b[i] {
            return false;
        }
        i = i + 1;
    }
    assert(a@ =~= b@);
    true
}

/// Tells whether the characters spell `s`.
pub fn spells(a: &[char], s: &str) -> (r: bool)
    ensures
        r == (a@ == s@),
{
    let b = chars_of(s);
    same_chars(a, b.as_slice())
}

/// The part of `s` from position `from` on.
pub fn from_index<'a>(s: &'a [char], from: usize) -> (r: &'a [char])
    requires
        from <= s@.len(),
    ensures
        r@ == s@.skip(from as int),
{
    let r = slice_subrange(s, from, s.len());
    assert(r@ =~= s@.skip(from as int));
    r
}

/// The first `to` characters of `s`.
pub fn up_to<'a>(s: &'a [char], to: usize) -> (r: &'a [char])
    requires
        to <= s@.len(),
    ensures
        r@ == s@.take(to as int),
{
    let r = slice_subrange(s, 0, to);
    assert(r@ =~= s@.take(to as int));
    r
}

/// `s` begins with `prefix`.
pub open spec fn starts_with(s: Seq<char>, prefix: Seq<char>) -> bool {
    prefix.len() <= s.len() && s.take(prefix.len() as int) == prefix
}

/// `s` ends with `suffix`.
pub open spec fn ends_with(s: Seq<char>, suffix: Seq<char>) -> bool {
    suffix.len() <= s.len() && s.skip(s.len() - suffix.len()) == suffix
}

/// What follows `prefix` in `s`, if `s` begins with it.
pub open spec fn after_prefix(s: Seq<char>, prefix: Seq<char>) -> Option<Seq<char>> {
    if starts_with(s, prefix) {
        Some(s.skip(prefix.len() as int))
    } else {
        None
    }
}

/// The view of an optional slice.
pub open spec fn opt_view(s: Option<&[char]>) -> Option<Seq<char>> {
    match s {
        Some(v) => Some(v@),
        None => None,
    }
}

/// Strips a literal prefix.
pub fn strip_prefix<'a>(s: &'a [char], prefix: &str) -> (r: Option<&'a [char]>)
    ensures
        opt_view(r) == after_prefix(s@, prefix@),
{
    let p = chars_of(prefix);
    if p.len() > s.len() {
        return None;
    }
    if same_chars(up_to(s, p.len()), p.as_slice()) {
        Some(from_index(s, p.len()))
    } else {
        None
    }
}

/// Tells whether a text ends with a literal suffix.
pub fn has_suffix(s: &[char], suffix: &str) -> (r: bool)
    ensures
        r == ends_with(s@, suffix@),
{
    let p = chars_of(suffix);
    if p.len() > s.len() {
        return false;
    }
    same_chars(from_index(s, s.len() - p.len()), p.as_slice())
}

/// Tells whether a text begins with a literal prefix.
pub fn has_prefix(s: &[char], prefix: &str) -> (r: bool)
    ensures
        r == starts_with(s@, prefix@),
{
    match strip_prefix(s, prefix) {
        Some(_) => true,
        None => false,
    }
}

// ---------------------------------------------------------------------------
// Trimming
// ---------------------------------------------------------------------------

/// `s` without its leading whitespace.
pub open spec fn trim_start_of(s: Seq<char>) -> Seq<char>
    decreases s.len(),
{
    if s.len() > 0 && is_space(s[0]) {
        trim_start_of(s.skip(1))
    } else {
        s
    }
}

/// `s` without its trailing whitespace.
pub open spec fn trim_end_of(s: Seq<char>) -> Seq<char>
    decreases s.len(),
{
    if s.len() > 0 && is_space(s.last()) {
        trim_end_of(s.drop_last())
    } else {
        s
    }
}

/// `s` without whitespace at either end.
pub open spec fn trim_of(s: Seq<char>) -> Seq<char> {
    trim_end_of(trim_start_of(s))
}

/// Drops leading whitespace.
pub fn trim_start<'a>(s: &'a [char]) -> (r: &'a [char])
    ensures
        r@ == trim_start_of(s@),
{
    let mut i: usize = 0;
    assert(s@.skip(0) =~= s@);
    while i < s.len() && char_is_space(s[i])
        invariant
            i <= s.len(),
            trim_start_of(s@.skip(i as int)) == trim_start_of(s@),
        decreases s.len() - i,
    {
        assert(s@.skip(i as int).skip(1) =~= s@.skip(i + 1));
        i = i + 1;
    }
    from_index(s, i)
}

/// Drops trailing whitespace.
pub fn trim_end<'a>(s: &'a [char]) -> (r: &'a [char])
    ensures
        r@ == trim_end_of(s@),
{
    let mut n: usize = s.len();
    assert(s@.take(s@.len() as int) =~= s@);
    while n > 0 && char_is_space(s[n - 1])
        invariant
            n <= s.len(),
            trim_end_of(s@.take(n as int)) == trim_end_of(s@),
        decreases n,
    {
        assert(s@.take(n as int).drop_last() =~= s@.take(n - 1));
        n = n - 1;
    }
    up_to(s, n)
}

/// Drops whitespace at both ends.
pub fn trim<'a>(s: &'a [char]) -> (r: &'a [char])
    ensures
        r@ == trim_of(s@),
{
    trim_end(trim_start(s))
}

/// A text whose first and last characters are no whitespace is left as it is.
pub proof fn lemma_trim_fixed(s: Seq<char>)
    requires
        s.len() > 0,
        !is_space(s[0]),
        !is_space(s.last()),
    ensures
        trim_of(s) == s,
{
}

/// A text that begins with no whitespace keeps its beginning.
pub proof fn lemma_trim_end_keeps_front(s: Seq<char>)
    requires
        s.len() > 0,
        !is_space(s[0]),
    ensures
        trim_of(s).len() > 0,
        trim_of(s)[0] == s[0],
        trim_end_of(s).len() > 0,
        trim_end_of(s)[0] == s[0],
    decreases s.len(),
{
    if is_space(s.last()) {
        assert(s.len() > 1);
        lemma_trim_end_keeps_front(s.drop_last());
    }
}

// ---------------------------------------------------------------------------
// Case folding and filtering
// ---------------------------------------------------------------------------

/// ASCII lowercase of a text.
pub open spec fn lower_of(s: Seq<char>) -> Seq<char> {
    Seq::new(s.len(), |i: int| lower(s[i]))
}

/// ASCII lowercase of a text.
pub fn to_lower(s: &[char]) -> (r: Vec<char>)
    ensures
        r@ == lower_of(s@),
{
    let mut out: Vec<char> = Vec::new();
    let mut i: usize = 0;
    while i < s.len()
        invariant
            i <= s.len(),
            out@.len() == i,
            forall|k: int| 0 <= k < i ==> out@[k] == lower(s@[k]),
        decreases s.len() - i,
    {
        out.push(char_lower(s[i]));
        i = i + 1;
    }
    assert(out@ =~= lower_of(s@));
    out
}

/// Every character is a hexadecimal digit.
pub open spec fn all_hex(s: Seq<char>) -> bool {
    forall|i: int| 0 <= i < s.len() ==> is_hex(#[trigger] s[i])
}

/// Every character is a decimal digit.
pub open spec fn all_digits(s: Seq<char>) -> bool {
    forall|i: int| 0 <= i < s.len() ==> is_digit(#[trigger] s[i])
}

/// Tells whether every character is a hexadecimal digit.
pub fn is_all_hex(s: &[char]) -> (r: bool)
    ensures
        r == all_hex(s@),
{
    let mut i: usize = 0;
    while i < s.len()
        invariant
            i <= s.len(),
            forall|k: int| 0 <= k < i ==> is_hex(#[trigger] s@[k]),
        decreases s.len() - i,
    {
        if !char_is_hex(s[i]) {
            return false;
        }
        i = i + 1;
    }
    true
}

/// Tells whether every character is a decimal digit.
pub fn is_all_digits(s: &[char]) -> (r: bool)
    ensures
        r == all_digits(s@),
{
    let mut i: usize = 0;
    while i < s.len()
        invariant
            i <= s.len(),
            forall|k: int| 0 <= k < i ==> is_digit(#[trigger] s@[k]),
        decreases s.len() - i,
    {
        if !char_is_digit(s[i]) {
            return false;
        }
        i = i + 1;
    }
    true
}

/// The hexadecimal digits of `s`, in order, everything else left out.
pub open spec fn hex_chars(s: Seq<char>) -> Seq<char>
    decreases s.len(),
{
    if s.len() == 0 {
        s
    } else if is_hex(s.last()) {
        hex_chars(s.drop_last()).push(s.last())
    } else {
        hex_chars(s.drop_last())
    }
}

/// Keeps the hexadecimal digits.
pub fn keep_hex(s: &[char]) -> (r: Vec<char>)
    ensures
        r@ == hex_chars(s@),
        all_hex(r@),
        r@.len() <= s@.len(),
{
    let mut out: Vec<char> = Vec::new();
    let mut i: usize = 0;
    while i < s.len()
        invariant
            i <= s.len(),
            out@ == hex_chars(s@.take(i as int)),
            all_hex(out@),
            out@.len() <= i,
        decreases s.len() - i,
    {
        assert(s@.take(i + 1).drop_last() =~= s@.take(i as int));
        if char_is_hex(s[i]) {
            out.push(s[i]);
        }
        i = i + 1;
    }
    assert(s@.take(s@.len() as int) =~= s@);
    out
}

/// A text of hexadecimal digits alone is kept whole.
pub proof fn lemma_hex_chars_all(s: Seq<char>)
    requires
        all_hex(s),
    ensures
        hex_chars(s) == s,
    decreases s.len(),
{
    if s.len() > 0 {
        assert(is_hex(s.last()));
        assert forall|i: int| 0 <= i < s.drop_last().len() implies is_hex(
            #[trigger] s.drop_last()[i],
        ) by {
            assert(s.drop_last()[i] == s[i]);
        }
        lemma_hex_chars_all(s.drop_last());
        assert(s.drop_last().push(s.last()) =~= s);
    }
}

/// What is kept is hexadecimal.
pub proof fn lemma_hex_chars_hex(s: Seq<char>)
    ensures
        all_hex(hex_chars(s)),
    decreases s.len(),
{
    if s.len() > 0 {
        lemma_hex_chars_hex(s.drop_last());
    }
}

/// Lowercase keeps a hexadecimal text hexadecimal.
pub proof fn lemma_lower_hex(s: Seq<char>)
    ensures
        lower_of(s).len() == s.len(),
        all_hex(s) ==> all_hex(lower_of(s)),
{
    if all_hex(s) {
        assert forall|i: int| 0 <= i < s.len() implies is_hex(#[trigger] lower_of(s)[i]) by {
            assert(is_hex(s[i]));
        }
    }
}

// ---------------------------------------------------------------------------
// Searching and splitting
// ---------------------------------------------------------------------------

/// The first position at or after `from` that holds `c` (the length, if none does).
pub open spec fn index_of(s: Seq<char>, c: char, from: int) -> int
    decreases s.len() - from,
{
    if from < 0 || from >= s.len() {
        s.len() as int
    } else if s[from] == c {
        from
    } else {
        index_of(s, c, from + 1)
    }
}

/// What `index_of` finds holds `c`, and nothing before it does.
pub proof fn lemma_index_of(s: Seq<char>, c: char, from: int)
    requires
        0 <= from <= s.len(),
    ensures
        from <= index_of(s, c, from) <= s.len(),
        index_of(s, c, from) < s.len() ==> s[index_of(s, c, from)] == c,
        forall|k: int| from <= k < index_of(s, c, from) ==> s[k] != c,
    decreases s.len() - from,
{
    if from < s.len() && s[from] != c {
        lemma_index_of(s, c, from + 1);
    }
}

/// Position of the first `c` (the length, if there is none).
pub fn find_char(s: &[char], c: char) -> (r: usize)
    ensures
        r == index_of(s@, c, 0),
        r <= s@.len(),
        r < s@.len() ==> s@[r as int] == c,
{
    let mut i: usize = 0;
    while i < s.len() && s[i] != c
        invariant
            i <= s.len(),
            index_of(s@, c, i as int) == index_of(s@, c, 0),
        decreases s.len() - i,
    {
        i = i + 1;
    }
    i
}

/// The last position before `to` that holds `c`, if any does.
pub open spec fn last_index_of(s: Seq<char>, c: char, to: int) -> Option<int>
    decreases to,
{
    if to <= 0 || to > s.len() {
        None
    } else if s[to - 1] == c {
        Some(to - 1)
    } else {
        last_index_of(s, c, to - 1)
    }
}

/// The last occurrence is the one that no other follows.
pub proof fn lemma_last_index_of(s: Seq<char>, c: char, to: int, i: int)
    requires
        0 <= i < to <= s.len(),
        s[i] == c,
        forall|k: int| i < k < to ==> s[k] != c,
    ensures
        last_index_of(s, c, to) == Some(i),
    decreases to,
{
    if i < to - 1 {
        lemma_last_index_of(s, c, to - 1, i);
    }
}

/// Nothing is found that is not there.
pub proof fn lemma_no_last_index(s: Seq<char>, c: char, to: int)
    requires
        0 <= to <= s.len(),
        !s.contains(c),
    ensures
        last_index_of(s, c, to) is None,
    decreases to,
{
    if to > 0 {
        assert(s[to - 1] != c);
        lemma_no_last_index(s, c, to - 1);
    }
}

/// Position of the last `c`.
pub fn rfind_char(s: &[char], c: char) -> (r: Option<usize>)
    ensures
        match r {
            Some(i) => last_index_of(s@, c, s@.len() as int) == Some(i as int) && i < s@.len()
                && s@[i as int] == c,
            None => last_index_of(s@, c, s@.len() as int) is None,
        },
{
    let mut n: usize = s.len();
    while n > 0
        invariant
            n <= s.len(),
            last_index_of(s@, c, n as int) == last_index_of(s@, c, s@.len() as int),
        decreases n,
    {
        if s[n - 1] == c {
            return Some(n - 1);
        }
        n = n - 1;
    }
    None
}

/// Length of the longest prefix of hexadecimal digits.
pub open spec fn hex_run(s: Seq<char>) -> int
    decreases s.len(),
{
    if s.len() > 0 && is_hex(s[0]) {
        1 + hex_run(s.skip(1))
    } else {
        0
    }
}

/// Length of the leading run of hexadecimal digits.
pub fn leading_hex(s: &[char]) -> (r: usize)
    ensures
        r == hex_run(s@),
        r <= s@.len(),
{
    let mut i: usize = 0;
    assert(s@.skip(0) =~= s@);
    while i < s.len() && char_is_hex(s[i])
        invariant
            i <= s.len(),
            hex_run(s@) == i + hex_run(s@.skip(i as int)),
        decreases s.len() - i,
    {
        assert(s@.skip(i as int).skip(1) =~= s@.skip(i + 1));
        i = i + 1;
    }
    i
}

/// A text of hexadecimal digits alone is one run.
pub proof fn lemma_hex_run_all(s: Seq<char>)
    requires
        all_hex(s),
    ensures
        hex_run(s) == s.len(),
    decreases s.len(),
{
    if s.len() > 0 {
        assert(is_hex(s[0]));
        let t = s.skip(1);
        assert forall|i: int| 0 <= i < t.len() implies is_hex(#[trigger] t[i]) by {
            assert(t[i] == s[i + 1]);
        }
        lemma_hex_run_all(t);
    }
}

/// Length of the longest prefix without whitespace.
pub open spec fn word_run(s: Seq<char>) -> int
    decreases s.len(),
{
    if s.len() > 0 && !is_space(s[0]) {
        1 + word_run(s.skip(1))
    } else {
        0
    }
}

/// Length of the leading run of characters that are no whitespace.
pub fn leading_word(s: &[char]) -> (r: usize)
    ensures
        r == word_run(s@),
        r <= s@.len(),
{
    let mut i: usize = 0;
    assert(s@.skip(0) =~= s@);
    while i < s.len() && !char_is_space(s[i])
        invariant
            i <= s.len(),
            word_run(s@) == i + word_run(s@.skip(i as int)),
        decreases s.len() - i,
    {
        assert(s@.skip(i as int).skip(1) =~= s@.skip(i + 1));
        i = i + 1;
    }
    i
}

/// The pieces of `s` between occurrences of `sep`: one more than there are
/// occurrences.
pub open spec fn split_of(s: Seq<char>, sep: char) -> Seq<Seq<char>>
    decreases s.len(),
{
    if s.len() == 0 {
        seq![s]
    } else {
        let before = split_of(s.drop_last(), sep);
        if s.last() == sep {
            before.push(Seq::<char>::empty())
        } else {
            before.drop_last().push(before.last().push(s.last()))
        }
    }
}

/// Views of a list of pieces.
pub open spec fn pieces_view(v: Seq<&[char]>) -> Seq<Seq<char>> {
    Seq::new(v.len(), |i: int| v[i]@)
}

/// A split has at least one piece.
pub proof fn lemma_split_nonempty(s: Seq<char>, sep: char)
    ensures
        split_of(s, sep).len() >= 1,
    decreases s.len(),
{
    if s.len() > 0 {
        lemma_split_nonempty(s.drop_last(), sep);
    }
}

/// A text without the separator is its own only piece.
pub proof fn lemma_split_single(s: Seq<char>, sep: char)
    requires
        !s.contains(sep),
    ensures
        split_of(s, sep) == seq![s],
    decreases s.len(),
{
    if s.len() > 0 {
        assert(s[s.len() - 1] == s.last());
        assert(!s.drop_last().contains(sep)) by {
            if s.drop_last().contains(sep) {
                let i = s.drop_last().index_of(sep);
                assert(s[i] == sep);
            }
        }
        lemma_split_single(s.drop_last(), sep);
        assert(s.drop_last().push(s.last()) =~= s);
        assert(split_of(s, sep) =~= seq![s]);
    }
}

/// Splitting at a separator splits each side on its own.
pub proof fn lemma_split_concat(a: Seq<char>, b: Seq<char>, sep: char)
    ensures
        split_of(a.push(sep) + b, sep) == split_of(a, sep) + split_of(b, sep),
    decreases b.len(),
{
    let whole = a.push(sep) + b;
    lemma_split_nonempty(b, sep);
    if b.len() == 0 {
        assert(whole =~= a.push(sep));
        assert(a.push(sep).drop_last() =~= a);
        assert(b =~= Seq::<char>::empty());
        assert(split_of(whole, sep) =~= split_of(a, sep) + split_of(b, sep));
    } else {
        lemma_split_concat(a, b.drop_last(), sep);
        lemma_split_nonempty(b.drop_last(), sep);
        assert(whole.drop_last() =~= a.push(sep) + b.drop_last());
        assert(whole.last() == b.last());
        assert(split_of(whole, sep) =~= split_of(a, sep) + split_of(b, sep));
    }
}

/// Splits a text at every occurrence of a separator.
pub fn split<'a>(s: &'a [char], sep: char) -> (r: Vec<&'a [char]>)
    ensures
        pieces_view(r@) == split_of(s@, sep),
        r@.len() >= 1,
{
    let mut out: Vec<&'a [char]> = Vec::new();
    let mut start: usize = 0;
    let mut i: usize = 0;
    assert(split_of(s@.take(0), sep) =~= pieces_view(out@).push(s@.subrange(0, 0)));
    while i < s.len()
        invariant
            start <= i <= s.len(),
            split_of(s@.take(i as int), sep) == pieces_view(out@).push(
                s@.subrange(start as int, i as int),
            ),
        decreases s.len() - i,
    {
        let ghost before = split_of(s@.take(i as int), sep);
        let ghost done = pieces_view(out@);
        assert(s@.take(i + 1).drop_last() =~= s@.take(i as int));
        assert(before.drop_last() =~= done);
        assert(before.last() == s@.subrange(start as int, i as int));
        if s[i] == sep {
            let piece = slice_subrange(s, start, i);
            out.push(piece);
            assert(pieces_view(out@) =~= done.push(piece@));
            start = i + 1;
            assert(s@.subrange(start as int, start as int) =~= Seq::<char>::empty());
            assert(before =~= done.push(piece@));
        } else {
            assert(s@.subrange(start as int, i as int).push(s@[i as int]) =~= s@.subrange(
                start as int,
                i + 1,
            ));
        }
        i = i + 1;
    }
    let piece = slice_subrange(s, start, s.len());
    let ghost done = pieces_view(out@);
    out.push(piece);
    assert(pieces_view(out@) =~= done.push(piece@));
    assert(s@.take(s@.len() as int) =~= s@);
    out
}

// ---------------------------------------------------------------------------
// Hexadecimal text
// ---------------------------------------------------------------------------

/// The byte that two hexadecimal digits spell.
pub open spec fn pair_value(hi: char, lo: char) -> u8 {
    (hex_val(hi) * 16 + hex_val(lo)) as u8
}

/// The byte that two hexadecimal digits spell.
pub fn char_pair_value(hi: char, lo: char) -> (r: u8)
    requires
        is_hex(hi),
        is_hex(lo),
    ensures
        r == pair_value(hi, lo),
{
    char_hex_val(hi) * 16 + char_hex_val(lo)
}

/// The bytes that consecutive pairs of characters spell.
pub open spec fn hex_pairs(s: Seq<char>) -> Seq<u8> {
    Seq::new(s.len() / 2, |i: int| pair_value(s[2 * i], s[2 * i + 1]))
}

/// Reads consecutive pairs of hexadecimal digits as bytes.
pub fn read_hex_pairs(s: &[char]) -> (r: Vec<u8>)
    requires
        all_hex(s@),
    ensures
        r@ == hex_pairs(s@),
{
    let mut out: Vec<u8> = Vec::new();
    let n: usize = s.len() / 2;
    let mut i: usize = 0;
    while i < n
        invariant
            i <= n,
            n == s@.len() / 2,
            2 * n <= usize::MAX,
            all_hex(s@),
            out@.len() == i,
            forall|k: int| 0 <= k < i ==> out@[k] == pair_value(s@[2 * k], s@[2 * k + 1]),
        decreases n - i,
    {
        assert(is_hex(s@[2 * i as int]) && is_hex(s@[2 * i + 1]));
        out.push(char_pair_value(s[2 * i], s[2 * i + 1]));
        i = i + 1;
    }
    assert(out@ =~= hex_pairs(s@));
    out
}

/// Lowercase hexadecimal text of some bytes, two digits each.
pub open spec fn hex_text(b: Seq<u8>) -> Seq<char> {
    Seq::new(
        2 * b.len(),
        |i: int|
            if i % 2 == 0 {
                hex_digit(b[i / 2] as int / 16)
            } else {
                hex_digit(b[i / 2] as int % 16)
            },
    )
}

/// Appends the lowercase hexadecimal text of some bytes.
pub fn push_hex(out: &mut String, b: &[u8])
    ensures
        final(out)@ == old(out)@ + hex_text(b@),
{
    let ghost start = out@;
    let mut i: usize = 0;
    assert(start + hex_text(b@).take(0) =~= start);
    while i < b.len()
        invariant
            i <= b.len(),
            out@ == start + hex_text(b@).take(2 * i),
        decreases b.len() - i,
    {
        let ghost before = out@;
        out.push(char_hex_digit(b[i] / 16));
        out.push(char_hex_digit(b[i] % 16));
        proof {
            let t = hex_text(b@);
            assert((2 * i + 1) / 2 == i && (2 * i + 1) % 2 == 1);
            assert(t[2 * i as int] == hex_digit(b@[i as int] as int / 16));
            assert(t[2 * i + 1] == hex_digit(b@[i as int] as int % 16));
            assert(out@ =~= start + t.take(2 * (i + 1)));
        }
        i = i + 1;
    }
    assert(hex_text(b@).take(2 * b@.len() as int) =~= hex_text(b@));
}

/// The digit printed for a value reads back as that value.
pub proof fn lemma_hex_digit(n: int)
    requires
        0 <= n < 16,
    ensures
        is_hex(hex_digit(n)),
        hex_val(hex_digit(n)) == n,
        !is_space(hex_digit(n)),
        hex_digit(n) != '\t',
        n < 10 ==> is_digit(hex_digit(n)),
{
}

/// Hexadecimal text is made of digits alone, and reads back as the bytes it was
/// made from.
pub proof fn lemma_hex_text(b: Seq<u8>)
    ensures
        hex_text(b).len() == 2 * b.len(),
        all_hex(hex_text(b)),
        hex_pairs(hex_text(b)) == b,
{
    let t = hex_text(b);
    assert forall|i: int| 0 <= i < t.len() implies is_hex(#[trigger] t[i]) by {
        lemma_hex_digit(b[i / 2] as int / 16);
        lemma_hex_digit(b[i / 2] as int % 16);
    }
    assert forall|i: int| 0 <= i < b.len() implies #[trigger] hex_pairs(t)[i] == b[i] by {
        assert((2 * i + 1) / 2 == i && (2 * i + 1) % 2 == 1);
        lemma_hex_digit(b[i] as int / 16);
        lemma_hex_digit(b[i] as int % 16);
    }
    assert(hex_pairs(t) =~= b);
}

/// Hexadecimal text is lowercase.
pub proof fn lemma_hex_text_lower(b: Seq<u8>)
    ensures
        lower_of(hex_text(b)) == hex_text(b),
{
    assert(lower_of(hex_text(b)) =~= hex_text(b));
}

/// Scans a text from the left for adjacent pairs of hexadecimal digits; a
/// character that starts no pair is passed over.
pub open spec fn scan_pairs(s: Seq<char>) -> Seq<u8>
    decreases s.len(),
{
    if s.len() < 2 {
        Seq::empty()
    } else if is_hex(s[0]) && is_hex(s[1]) {
        seq![pair_value(s[0], s[1])] + scan_pairs(s.skip(2))
    } else {
        scan_pairs(s.skip(1))
    }
}

/// Appends the bytes of every adjacent pair of hexadecimal digits.
pub fn push_scanned_pairs(s: &[char], out: &mut Vec<u8>)
    ensures
        final(out)@ == old(out)@ + scan_pairs(s@),
{
    let ghost start = out@;
    let mut i: usize = 0;
    assert(s@.skip(0) =~= s@);
    while i < s.len() && s.len() - i >= 2
        invariant
            i <= s.len(),
            start + scan_pairs(s@) == out@ + scan_pairs(s@.skip(i as int)),
        decreases s.len() - i,
    {
        let ghost tail = s@.skip(i as int);
        if char_is_hex(s[i]) && char_is_hex(s[i + 1]) {
            let v = char_pair_value(s[i], s[i + 1]);
            let ghost before = out@;
            out.push(v);
            assert(tail.skip(2) =~= s@.skip(i + 2));
            assert(before + (seq![v] + scan_pairs(tail.skip(2))) =~= out@ + scan_pairs(
                s@.skip(i + 2),
            ));
            i = i + 2;
        } else {
            assert(tail.skip(1) =~= s@.skip(i + 1));
            i = i + 1;
        }
    }
    assert(out@ + scan_pairs(s@.skip(i as int)) =~= out@);
}

/// On a text of hexadecimal digits alone, the scan reads pair after pair.
pub proof fn lemma_scan_all_hex(s: Seq<char>)
    requires
        all_hex(s),
    ensures
        scan_pairs(s) == hex_pairs(s),
    decreases s.len(),
{
    if s.len() < 2 {
        assert(hex_pairs(s) =~= Seq::<u8>::empty());
    } else {
        assert(is_hex(s[0]) && is_hex(s[1]));
        let t = s.skip(2);
        assert forall|i: int| 0 <= i < t.len() implies is_hex(#[trigger] t[i]) by {
            assert(t[i] == s[i + 2]);
        }
        lemma_scan_all_hex(t);
        assert forall|i: int| 0 <= i < hex_pairs(s).len() implies #[trigger] hex_pairs(s)[i] == (
        seq![pair_value(s[0], s[1])] + hex_pairs(t))[i] by {
            if i > 0 {
                assert(t[2 * (i - 1)] == s[2 * i]);
                assert(t[2 * (i - 1) + 1] == s[2 * i + 1]);
            }
        }
        assert(hex_pairs(s) =~= seq![pair_value(s[0], s[1])] + hex_pairs(t));
    }
}

// ---------------------------------------------------------------------------
// Unsigned numbers
// ---------------------------------------------------------------------------

/// `c` is a digit in the given radix.
pub open spec fn is_radix_digit(c: char, radix: int) -> bool {
    is_hex(c) && hex_val(c) < radix
}

/// Every character is a digit in the given radix.
pub open spec fn all_radix_digits(s: Seq<char>, radix: int) -> bool {
    forall|i: int| 0 <= i < s.len() ==> is_radix_digit(#[trigger] s[i], radix)
}

/// The number that some digits spell.
pub open spec fn digits_value(s: Seq<char>, radix: int) -> int
    decreases s.len(),
{
    if s.len() == 0 {
        0
    } else {
        digits_value(s.drop_last(), radix) * radix + hex_val(s.last())
    }
}

/// What is left of a number's text once an optional leading `+` is dropped.
pub open spec fn unsigned_digits(s: Seq<char>) -> Seq<char> {
    if s.len() > 0 && s[0] == '+' {
        s.skip(1)
    } else {
        s
    }
}

/// The number that a text spells: an optional `+`, then at least one digit, and
/// a value of at most `max`.
pub open spec fn uint_of(s: Seq<char>, radix: int, max: int) -> Option<int> {
    let d = unsigned_digits(s);
    if d.len() == 0 || !all_radix_digits(d, radix) || digits_value(d, radix) > max {
        None
    } else {
        Some(digits_value(d, radix))
    }
}

/// The value of a text is at least that of its first part.
pub proof fn lemma_digits_grow(s: Seq<char>, radix: int, i: int)
    requires
        2 <= radix,
        0 <= i <= s.len(),
        all_radix_digits(s, radix),
    ensures
        0 <= digits_value(s.take(i), radix) <= digits_value(s, radix),
    decreases s.len(),
{
    if s.len() == 0 {
        assert(s.take(i) =~= s);
    } else {
        let p = s.drop_last();
        assert forall|k: int| 0 <= k < p.len() implies is_radix_digit(#[trigger] p[k], radix) by {
            assert(p[k] == s[k]);
        }
        assert(is_radix_digit(s[s.len() - 1], radix));
        let v = digits_value(p, radix);
        if i == s.len() {
            lemma_digits_grow(p, radix, p.len() as int);
            assert(p.take(p.len() as int) =~= p);
            assert(s.take(i) =~= s);
            assert(v * radix >= 0) by (nonlinear_arith)
                requires
                    v >= 0,
                    radix >= 2,
            ;
        } else {
            lemma_digits_grow(p, radix, i);
            assert(p.take(i) =~= s.take(i));
            assert(v * radix >= v) by (nonlinear_arith)
                requires
                    v >= 0,
                    radix >= 2,
            ;
        }
    }
}

/// Reads an unsigned number.
pub fn parse_uint(s: &[char], radix: u64, max: u64) -> (r: Option<u64>)
    requires
        2 <= radix <= 16,
    ensures
        match r {
            Some(v) => uint_of(s@, radix as int, max as int) == Some(v as int) && v <= max,
            None => uint_of(s@, radix as int, max as int) is None,
        },
{
    let d: &[char] = if s.len() > 0 && s[0] == '+' {
        from_index(s, 1)
    } else {
        s
    };
    assert(d@ == unsigned_digits(s@));
    if d.len() == 0 {
        return None;
    }
    let mut acc: u64 = 0;
    let mut i: usize = 0;
    assert(d@.take(0) =~= Seq::<char>::empty());
    while i < d.len()
        invariant
            i <= d.len(),
            2 <= radix <= 16,
            d@ == unsigned_digits(s@),
            d@.len() > 0,
            acc <= max,
            acc == digits_value(d@.take(i as int), radix as int),
            forall|k: int| 0 <= k < i ==> is_radix_digit(#[trigger] d@[k], radix as int),
        decreases d.len() - i,
    {
        let c = d[i];
        if !char_is_hex(c) || char_hex_val(c) as u64 >= radix {
            assert(!is_radix_digit(d@[i as int], radix as int));
            return None;
        }
        assert(d@.take(i + 1).drop_last() =~= d@.take(i as int));
        assert(acc * radix <= u64::MAX * 16) by (nonlinear_arith)
            requires
                acc <= u64::MAX,
                radix <= 16,
        ;
        let next: u128 = acc as u128 * radix as u128 + char_hex_val(c) as u128;
        if next > max as u128 {
            proof {
                if all_radix_digits(d@, radix as int) {
                    lemma_digits_grow(d@, radix as int, i + 1);
                }
            }
            return None;
        }
        acc = next as u64;
        i = i + 1;
    }
    assert(d@.take(d@.len() as int) =~= d@);
    Some(acc)
}

/// Decimal text of a number.
pub open spec fn decimal_text(n: nat) -> Seq<char>
    decreases n,
{
    if n < 10 {
        seq![hex_digit(n as int)]
    } else {
        decimal_text(n / 10).push(hex_digit(n as int % 10))
    }
}

/// Appends the decimal text of a number.
pub fn push_decimal(out: &mut String, n: u64)
    ensures
        final(out)@ == old(out)@ + decimal_text(n as nat),
    decreases n,
{
    let ghost start = out@;
    if n >= 10 {
        push_decimal(out, n / 10);
    }
    out.push(char_hex_digit((n % 10) as u8));
    assert(out@ =~= start + decimal_text(n as nat));
}

/// Decimal text holds digits alone and reads back as the number it was made from.
pub proof fn lemma_decimal_text(n: nat)
    ensures
        decimal_text(n).len() >= 1,
        all_digits(decimal_text(n)),
        all_radix_digits(decimal_text(n), 10),
        digits_value(decimal_text(n), 10) == n,
    decreases n,
{
    let t = decimal_text(n);
    lemma_hex_digit(n as int % 10);
    if n < 10 {
        assert(t.drop_last() =~= Seq::<char>::empty());
        assert(digits_value(t.drop_last(), 10) == 0);
    } else {
        lemma_decimal_text(n / 10);
        assert(t.drop_last() =~= decimal_text(n / 10));
    }
}

/// Printing a number and reading it back gives the number, whatever the bound it
/// is read under, as long as it is within that bound.
pub proof fn lemma_decimal_round_trip(n: nat, max: int)
    requires
        n <= max,
    ensures
        uint_of(decimal_text(n), 10, max) == Some(n as int),
{
    lemma_decimal_text(n);
    assert(is_digit(decimal_text(n)[0]));
}

// ---------------------------------------------------------------------------
// Laws
// ---------------------------------------------------------------------------

/// Trimming takes whitespace off both ends, all of it and nothing else.
pub proof fn law_trim(s: Seq<char>, before: Seq<char>, after: Seq<char>)
    requires
        s.len() == 0 || (!is_space(s[0]) && !is_space(s.last())),
        forall|i: int| 0 <= i < before.len() ==> is_space(#[trigger] before[i]),
        forall|i: int| 0 <= i < after.len() ==> is_space(#[trigger] after[i]),
    ensures
        trim_of(before + s + after) == s,
        trim_start_of(before + s + after) == if s.len() > 0 {
            s + after
        } else {
            Seq::empty()
        },
    decreases before.len() + after.len(),
{
    let whole = before + s + after;
    if before.len() > 0 {
        assert(is_space(before[0]));
        assert(whole[0] == before[0]);
        assert(whole.skip(1) =~= before.skip(1) + s + after);
        assert forall|i: int| 0 <= i < before.skip(1).len() implies is_space(
            #[trigger] before.skip(1)[i],
        ) by {
            assert(before.skip(1)[i] == before[i + 1]);
        }
        law_trim(s, before.skip(1), after);
    } else if s.len() > 0 {
        assert(whole =~= s + after);
        assert(whole[0] == s[0]);
        assert(trim_start_of(whole) == whole);
        lemma_trim_end(s, after);
    } else if after.len() > 0 {
        assert(whole =~= after);
        assert(is_space(after[0]));
        assert forall|i: int| 0 <= i < after.skip(1).len() implies is_space(
            #[trigger] after.skip(1)[i],
        ) by {
            assert(after.skip(1)[i] == after[i + 1]);
        }
        law_trim(s, before, after.skip(1));
        assert(whole.skip(1) =~= before + s + after.skip(1));
    } else {
        assert(whole =~= s);
        assert(s =~= Seq::<char>::empty());
    }
}

proof fn lemma_trim_end(s: Seq<char>, after: Seq<char>)
    requires
        s.len() > 0,
        !is_space(s.last()),
        forall|i: int| 0 <= i < after.len() ==> is_space(#[trigger] after[i]),
    ensures
        trim_end_of(s + after) == s,
    decreases after.len(),
{
    if after.len() == 0 {
        assert(s + after =~= s);
    } else {
        assert(is_space(after[after.len() - 1]));
        assert((s + after).last() == after.last());
        assert((s + after).drop_last() =~= s + after.drop_last());
        assert forall|i: int| 0 <= i < after.drop_last().len() implies is_space(
            #[trigger] after.drop_last()[i],
        ) by {
            assert(after.drop_last()[i] == after[i]);
        }
        lemma_trim_end(s, after.drop_last());
    }
}

/// Blanks, tabs and line ends are whitespace; letters, digits and punctuation of
/// ASCII are not.
pub proof fn law_ascii_whitespace(c: char)
    ensures
        c == ' ' || c == '\t' || c == '\n' || c == '\r' ==> is_space(c),
        '!' <= c <= '~' ==> !is_space(c),
        c == ' ' || c == '\t' || c == '\n' || c == '\r' || c == '\x0C' ==> is_ascii_space(c),
        is_ascii_space(c) ==> is_space(c) && c <= ' ',
        c == '\x0B' ==> !is_ascii_space(c) && is_space(c),
{
}

/// Lowercase changes the capitals of ASCII to their small letters, and nothing else.
pub proof fn law_lowercase(s: Seq<char>, i: int)
    requires
        0 <= i < s.len(),
    ensures
        lower_of(s).len() == s.len(),
        'A' <= s[i] <= 'Z' ==> lower_of(s)[i] as int == s[i] as int + ('a' as int - 'A' as int),
        !('A' <= s[i] <= 'Z') ==> lower_of(s)[i] == s[i],
{
}

/// Splitting cuts at every separator and nowhere else: the pieces hold none, and
/// joined by it they are the text again.
pub proof fn law_split(s: Seq<char>, sep: char)
    ensures
        joined_by(split_of(s, sep), sep) == s,
        split_of(s, sep).len() >= 1,
        forall|i: int|
            0 <= i < split_of(s, sep).len() ==> !(#[trigger] split_of(s, sep)[i]).contains(sep),
    decreases s.len(),
{
    lemma_split_nonempty(s, sep);
    if s.len() == 0 {
        assert(split_of(s, sep).drop_last() =~= Seq::<Seq<char>>::empty());
        assert(joined_by(split_of(s, sep), sep) =~= s);
    } else {
        let before = split_of(s.drop_last(), sep);
        let now = split_of(s, sep);
        law_split(s.drop_last(), sep);
        assert(s =~= s.drop_last().push(s.last()));
        if s.last() == sep {
            assert(now.drop_last() =~= before);
            assert(joined_by(now, sep) =~= s);
        } else {
            assert(now.drop_last() =~= before.drop_last());
            assert(joined_by(now, sep) =~= s);
            assert forall|i: int| 0 <= i < now.len() implies !(#[trigger] now[i]).contains(sep) by {
                if i < now.len() - 1 {
                    assert(now[i] == before[i]);
                } else {
                    let last = before[before.len() - 1];
                    assert(now[i] == last.push(s.last()));
                    if now[i].contains(sep) {
                        let k = now[i].index_of(sep);
                        assert(last[k] == sep);
                    }
                }
            }
        }
    }
}

/// Pieces with a separator between them.
pub open spec fn joined_by(pieces: Seq<Seq<char>>, sep: char) -> Seq<char>
    decreases pieces.len(),
{
    if pieces.len() == 0 {
        Seq::empty()
    } else if pieces.len() == 1 {
        pieces[0]
    } else {
        joined_by(pieces.drop_last(), sep).push(sep) + pieces.last()
    }
}

/// Hexadecimal text has two digits for each byte, the high one first: `0` to `9`, then
/// `a` to `f`.
pub proof fn law_hex_digits(b: Seq<u8>, i: int)
    requires
        0 <= i < b.len(),
    ensures
        hex_text(b).len() == 2 * b.len(),
        b[i] / 16 < 10 ==> hex_text(b)[2 * i] as int == '0' as int + b[i] / 16,
        b[i] / 16 >= 10 ==> hex_text(b)[2 * i] as int == 'a' as int + b[i] / 16 - 10,
        b[i] % 16 < 10 ==> hex_text(b)[2 * i + 1] as int == '0' as int + b[i] % 16,
        b[i] % 16 >= 10 ==> hex_text(b)[2 * i + 1] as int == 'a' as int + b[i] % 16 - 10,
{
    assert((2 * i + 1) / 2 == i && (2 * i + 1) % 2 == 1);
}

/// Hexadecimal digits count from `0` to `9` and on from `a`, or `A`, to 15; two of them
/// spell a byte, the high one first. Nothing else is one.
pub proof fn law_hex_values(c: char, d: char)
    ensures
        '0' <= c <= '9' ==> is_hex(c) && hex_val(c) == c as int - '0' as int,
        'a' <= c <= 'f' ==> is_hex(c) && hex_val(c) == 10 + c as int - 'a' as int,
        'A' <= c <= 'F' ==> is_hex(c) && hex_val(c) == 10 + c as int - 'A' as int,
        is_hex(c) <==> ('0' <= c <= '9' || 'a' <= c <= 'f' || 'A' <= c <= 'F'),
        is_hex(c) && is_hex(d) ==> pair_value(c, d) == 16 * hex_val(c) + hex_val(d),
        is_hex(c) && is_hex(d) ==> hex_pairs(seq![c, d]) == seq![pair_value(c, d)],
{
    assert(hex_pairs(seq![c, d]) =~= seq![pair_value(c, d)]);
}

/// The digits of a text are those of its parts, in order; a character that is no
/// digit leaves no trace.
pub proof fn law_hex_digits_are_kept(a: Seq<char>, b: Seq<char>)
    ensures
        hex_chars(a + b) == hex_chars(a) + hex_chars(b),
        forall|c: char|
            #![auto]
            hex_chars(seq![c]) == if is_hex(c) {
                seq![c]
            } else {
                Seq::empty()
            },
    decreases b.len(),
{
    assert forall|c: char| #![auto] hex_chars(seq![c]) == (if is_hex(c) {
        seq![c]
    } else {
        Seq::empty()
    }) by {
        assert(seq![c].drop_last() =~= Seq::<char>::empty());
        assert(hex_chars(seq![c].drop_last()) =~= Seq::<char>::empty());
        assert(hex_chars(seq![c]) =~= if is_hex(c) {
            seq![c]
        } else {
            Seq::empty()
        });
    }
    if b.len() == 0 {
        assert(a + b =~= a);
        assert(hex_chars(a) + hex_chars(b) =~= hex_chars(a));
    } else {
        law_hex_digits_are_kept(a, b.drop_last());
        assert((a + b).drop_last() =~= a + b.drop_last());
        assert(hex_chars(a + b) =~= hex_chars(a) + hex_chars(b));
    }
}

/// The number that digits spell grows by one digit at a time; it is read only if it
/// is made of digits alone, at least one, and no larger than the bound. A plus sign
/// before it does not matter.
pub proof fn law_numbers(s: Seq<char>, c: char, max: int)
    ensures
        digits_value(Seq::<char>::empty(), 10) == 0,
        digits_value(s.push(c), 10) == 10 * digits_value(s, 10) + hex_val(c),
        digits_value(s.push(c), 16) == 16 * digits_value(s, 16) + hex_val(c),
        s.len() > 0 && all_digits(s) ==> uint_of(s, 10, max) == if digits_value(s, 10) <= max {
            Some(digits_value(s, 10))
        } else {
            None
        },
        s.len() > 0 && all_hex(s) ==> uint_of(s, 16, max) == if digits_value(s, 16) <= max {
            Some(digits_value(s, 16))
        } else {
            None
        },
        s.len() > 0 && s[0] != '+' && !all_digits(s) ==> uint_of(s, 10, max) is None,
        s.len() > 0 && s[0] != '+' && !all_hex(s) ==> uint_of(s, 16, max) is None,
        uint_of(Seq::<char>::empty(), 10, max) is None,
        s.len() == 0 || s[0] != '+' ==> uint_of(seq!['+'] + s, 10, max) == uint_of(s, 10, max),
{
    assert(s.push(c).drop_last() =~= s);
    assert((seq!['+'] + s).skip(1) =~= s);
    if s.len() > 0 && all_digits(s) {
        assert(is_digit(s[0]));
        assert forall|i: int| 0 <= i < s.len() implies is_radix_digit(#[trigger] s[i], 10) by {
            assert(is_digit(s[i]));
        }
    }
    if s.len() > 0 && all_hex(s) {
        assert(is_hex(s[0]));
        assert forall|i: int| 0 <= i < s.len() implies is_radix_digit(#[trigger] s[i], 16) by {
            assert(is_hex(s[i]));
        }
    }
    if s.len() > 0 && !all_digits(s) {
        let i = choose|i: int| 0 <= i < s.len() && !is_digit(#[trigger] s[i]);
        assert(!is_radix_digit(s[i], 10));
    }
    if s.len() > 0 && !all_hex(s) {
        let i = choose|i: int| 0 <= i < s.len() && !is_hex(#[trigger] s[i]);
        assert(!is_radix_digit(s[i], 16));
    }
}

/// Decimal text has no digit more than it needs, each the right one: the last is the
/// remainder by ten, what stands before it the text of the rest.
pub proof fn law_decimal_text(n: nat)
    ensures
        n < 10 ==> decimal_text(n).len() == 1 && decimal_text(n)[0] as int == '0' as int + n,
        n >= 10 ==> decimal_text(n).drop_last() == decimal_text(n / 10) && decimal_text(
            n,
        ).last() as int == '0' as int + n % 10,
{
    if n >= 10 {
        assert(decimal_text(n).drop_last() =~= decimal_text(n / 10));
    }
}

/// A text of hexadecimal digits is read pair by pair, the high digit first; a digit
/// left over is dropped. Scanning for adjacent digits reads the same bytes, and passes
/// over what is no digit.
pub proof fn law_pairs_spell_bytes(s: Seq<char>, i: int, c: char, t: Seq<char>)
    requires
        all_hex(s),
        0 <= i < s.len() / 2,
        !is_hex(c),
    ensures
        hex_pairs(s).len() == s.len() / 2,
        hex_pairs(s)[i] == 16 * hex_val(s[2 * i]) + hex_val(s[2 * i + 1]),
        scan_pairs(s) == hex_pairs(s),
        scan_pairs(seq![c] + t) == scan_pairs(t),
        scan_pairs(seq![s[0], s[1]] + t) == seq![pair_value(s[0], s[1])] + scan_pairs(t),
{
    lemma_scan_all_hex(s);
    assert(is_hex(s[2 * i]) && is_hex(s[2 * i + 1]) && is_hex(s[0]) && is_hex(s[1]));
    let ct = seq![c] + t;
    assert(ct.skip(1) =~= t);
    assert(ct[0] == c);
    let pt = seq![s[0], s[1]] + t;
    assert(pt.skip(2) =~= t);
    assert(pt[0] == s[0] && pt[1] == s[1]);
}

} // verus!
