//! Character-level helpers shared by the parsers and the URL builders.
//!
//! Strings are handled through their sequence-of-characters view. The
//! executable helpers work on `Vec<char>` copies so that every step is an
//! indexed loop with a stated result.

use vstd::prelude::*;

verus! {

/// `String::push` appends one character to the end of the string.
pub assume_specification[ String::push ](s: &mut String, c: char)
    ensures
        final(s)@ == old(s)@.push(c),
;

/// The characters of Unicode's `White_Space` property.
pub open spec fn is_whitespace(c: char) -> bool {
    let n = c as u32;
    (0x09 <= n && n <= 0x0D) || n == 0x20 || n == 0x85 || n == 0xA0 || n == 0x1680 || (0x2000 <= n
        && n <= 0x200A) || n == 0x2028 || n == 0x2029 || n == 0x202F || n == 0x205F || n == 0x3000
}

/// Index of the first occurrence of `c` in `s`, or `s.len()` when there is none.
pub open spec fn position_of(s: Seq<char>, c: char) -> int
    decreases s.len(),
{
    if s.len() == 0 {
        0
    } else if s[0] == c {
        0
    } else {
        1 + position_of(s.drop_first(), c)
    }
}

/// Number of leading whitespace characters of `s`.
pub open spec fn leading_whitespace(s: Seq<char>) -> int
    decreases s.len(),
{
    if s.len() > 0 && is_whitespace(s[0]) {
        1 + leading_whitespace(s.drop_first())
    } else {
        0
    }
}

/// `s` without its leading whitespace.
pub open spec fn trim_start(s: Seq<char>) -> Seq<char> {
    s.skip(leading_whitespace(s))
}

/// `s` without its trailing whitespace.
pub open spec fn trim_end(s: Seq<char>) -> Seq<char>
    decreases s.len(),
{
    if s.len() > 0 && is_whitespace(s.last()) {
        trim_end(s.drop_last())
    } else {
        s
    }
}

/// `s` without its leading and trailing whitespace.
pub open spec fn trim(s: Seq<char>) -> Seq<char> {
    trim_end(trim_start(s))
}

/// Number of leading occurrences of `c` in `s`.
pub open spec fn leading_count(s: Seq<char>, c: char) -> int
    decreases s.len(),
{
    if s.len() > 0 && s[0] == c {
        1 + leading_count(s.drop_first(), c)
    } else {
        0
    }
}

/// `s` without its leading occurrences of `c`.
pub open spec fn trim_leading(s: Seq<char>, c: char) -> Seq<char> {
    s.skip(leading_count(s, c))
}

/// Whether `c` ends a line: a carriage return or a line feed.
pub open spec fn is_line_end(c: char) -> bool {
    c == '\r' || c == '\n'
}

/// `s` without its trailing carriage returns and line feeds.
pub open spec fn trim_line_end(s: Seq<char>) -> Seq<char>
    decreases s.len(),
{
    if s.len() > 0 && is_line_end(s.last()) {
        trim_line_end(s.drop_last())
    } else {
        s
    }
}

/// `s` without its trailing line feeds.
pub open spec fn trim_newlines(s: Seq<char>) -> Seq<char>
    decreases s.len(),
{
    if s.len() > 0 && s.last() == '\n' {
        trim_newlines(s.drop_last())
    } else {
        s
    }
}

/// Whether every character of `s` is whitespace.
pub open spec fn is_blank(s: Seq<char>) -> bool {
    forall|i: int| 0 <= i < s.len() ==> is_whitespace(#[trigger] s[i])
}

/// `position_of` is the least index that holds `c`, or the length.
pub proof fn lemma_position_of(s: Seq<char>, c: char)
    ensures
        0 <= position_of(s, c) <= s.len(),
        position_of(s, c) < s.len() ==> s[position_of(s, c)] == c,
        forall|j: int| 0 <= j < position_of(s, c) ==> s[j] != c,
        position_of(s, c) == s.len() <==> !s.contains(c),
    decreases s.len(),
{
    if s.len() == 0 {
    } else if s[0] == c {
    } else {
        let t = s.drop_first();
        lemma_position_of(t, c);
        let p = position_of(t, c);
        assert forall|j: int| 0 <= j < 1 + p implies s[j] != c by {
            if j > 0 {
                assert(s[j] == t[j - 1]);
            }
        }
        if p < t.len() {
            assert(s[1 + p] == t[p]);
        } else {
            assert forall|j: int| 0 <= j < s.len() implies s[j] != c by {}
        }
    }
}

/// An index with the defining property of `position_of` is `position_of`.
pub proof fn lemma_position_of_unique(s: Seq<char>, c: char, i: int)
    requires
        0 <= i <= s.len(),
        forall|j: int| 0 <= j < i ==> s[j] != c,
        i < s.len() ==> s[i] == c,
    ensures
        position_of(s, c) == i,
{
    lemma_position_of(s, c);
    let p = position_of(s, c);
    if p < i {
        assert(s[p] == c);
    } else if i < p {
        assert(s[i] == c);
    }
}

/// `leading_whitespace` counts exactly the whitespace prefix.
pub proof fn lemma_leading_whitespace(s: Seq<char>)
    ensures
        0 <= leading_whitespace(s) <= s.len(),
        forall|j: int| 0 <= j < leading_whitespace(s) ==> is_whitespace(#[trigger] s[j]),
        leading_whitespace(s) < s.len() ==> !is_whitespace(s[leading_whitespace(s)]),
    decreases s.len(),
{
    if s.len() > 0 && is_whitespace(s[0]) {
        let t = s.drop_first();
        lemma_leading_whitespace(t);
        let p = leading_whitespace(t);
        assert forall|j: int| 0 <= j < 1 + p implies is_whitespace(#[trigger] s[j]) by {
            if j > 0 {
                assert(s[j] == t[j - 1]);
            }
        }
        if p < t.len() {
            assert(s[1 + p] == t[p]);
        }
    }
}

/// An index with the defining property of `leading_whitespace` is that count.
pub proof fn lemma_leading_whitespace_unique(s: Seq<char>, i: int)
    requires
        0 <= i <= s.len(),
        forall|j: int| 0 <= j < i ==> is_whitespace(#[trigger] s[j]),
        i < s.len() ==> !is_whitespace(s[i]),
    ensures
        leading_whitespace(s) == i,
{
    lemma_leading_whitespace(s);
    let p = leading_whitespace(s);
    if p < i {
        assert(is_whitespace(s[p]));
    } else if i < p {
        assert(is_whitespace(s[i]));
    }
}

/// A prefix that stops before a character that is no whitespace is the
/// sequence without its trailing whitespace.
pub proof fn lemma_trim_end_unique(s: Seq<char>, n: int)
    requires
        0 <= n <= s.len(),
        forall|j: int| n <= j < s.len() ==> is_whitespace(#[trigger] s[j]),
        n > 0 ==> !is_whitespace(s[n - 1]),
    ensures
        trim_end(s) == s.take(n),
    decreases s.len(),
{
    if s.len() > 0 && is_whitespace(s.last()) {
        assert(n < s.len());
        let t = s.drop_last();
        assert forall|j: int| n <= j < t.len() implies is_whitespace(#[trigger] t[j]) by {
            assert(t[j] == s[j]);
        }
        lemma_trim_end_unique(t, n);
        assert(t.take(n) =~= s.take(n));
    } else {
        if n < s.len() {
            assert(is_whitespace(s[s.len() - 1]));
        }
        assert(s.take(n) =~= s);
    }
}

/// What is trimmed has no whitespace at either end, and nothing is trimmed
/// twice.
pub proof fn lemma_trim_is_trimmed(s: Seq<char>)
    ensures
        trim(s).len() > 0 ==> !is_whitespace(trim(s)[0]) && !is_whitespace(trim(s).last()),
        trim(trim(s)) == trim(s),
{
    lemma_leading_whitespace(s);
    let a = trim_start(s);
    lemma_trim_end_shape(a);
    let b = trim(s);
    if b.len() > 0 {
        assert(b[0] == a[0]);
        assert(a[0] == s[leading_whitespace(s)]);
        lemma_leading_whitespace_unique(b, 0);
        assert(trim_start(b) =~= b);
        lemma_trim_end_unique(b, b.len() as int);
        assert(b.take(b.len() as int) =~= b);
    } else {
        lemma_leading_whitespace_unique(b, 0);
        assert(trim_start(b) =~= b);
    }
}

/// The sequence without its trailing whitespace is a prefix that ends in a
/// character that is no whitespace, or is empty.
pub proof fn lemma_trim_end_shape(s: Seq<char>)
    ensures
        trim_end(s).len() <= s.len(),
        trim_end(s) == s.take(trim_end(s).len() as int),
        trim_end(s).len() > 0 ==> !is_whitespace(trim_end(s).last()),
    decreases s.len(),
{
    if s.len() > 0 && is_whitespace(s.last()) {
        let t = s.drop_last();
        lemma_trim_end_shape(t);
        assert(t.take(trim_end(t).len() as int) =~= s.take(trim_end(t).len() as int));
    } else {
        assert(s.take(s.len() as int) =~= s);
    }
}

/// An index with the defining property of `leading_count` is that count.
pub proof fn lemma_leading_count_unique(s: Seq<char>, c: char, i: int)
    requires
        0 <= i <= s.len(),
        forall|j: int| 0 <= j < i ==> s[j] == c,
        i < s.len() ==> s[i] != c,
    ensures
        leading_count(s, c) == i,
    decreases s.len(),
{
    if s.len() > 0 && s[0] == c {
        let t = s.drop_first();
        assert forall|j: int| 0 <= j < i - 1 implies t[j] == c by {
            assert(t[j] == s[j + 1]);
        }
        if i - 1 < t.len() {
            assert(t[i - 1] == s[i]);
        }
        lemma_leading_count_unique(t, c, i - 1);
    }
}

/// A prefix that stops before a character outside the trailing run is the trimmed sequence.
pub proof fn lemma_trim_line_end_unique(s: Seq<char>, n: int)
    requires
        0 <= n <= s.len(),
        forall|j: int| n <= j < s.len() ==> is_line_end(#[trigger] s[j]),
        n > 0 ==> !is_line_end(s[n - 1]),
    ensures
        trim_line_end(s) == s.take(n),
    decreases s.len(),
{
    if s.len() > 0 && is_line_end(s.last()) {
        assert(n < s.len());
        let t = s.drop_last();
        assert forall|j: int| n <= j < t.len() implies is_line_end(#[trigger] t[j]) by {
            assert(t[j] == s[j]);
        }
        lemma_trim_line_end_unique(t, n);
        assert(t.take(n) =~= s.take(n));
    } else {
        if n < s.len() {
            assert(is_line_end(s[s.len() - 1]));
        }
        assert(s.take(n) =~= s);
    }
}

/// A prefix that stops before a character other than a line feed is the trimmed sequence.
pub proof fn lemma_trim_newlines_unique(s: Seq<char>, n: int)
    requires
        0 <= n <= s.len(),
        forall|j: int| n <= j < s.len() ==> #[trigger] s[j] == '\n',
        n > 0 ==> s[n - 1] != '\n',
    ensures
        trim_newlines(s) == s.take(n),
    decreases s.len(),
{
    if s.len() > 0 && s.last() == '\n' {
        assert(n < s.len());
        let t = s.drop_last();
        assert forall|j: int| n <= j < t.len() implies #[trigger] t[j] == '\n' by {
            assert(t[j] == s[j]);
        }
        lemma_trim_newlines_unique(t, n);
        assert(t.take(n) =~= s.take(n));
    } else {
        if n < s.len() {
            assert(s[s.len() - 1] == '\n');
        }
        assert(s.take(n) =~= s);
    }
}

/// The characters of a string slice, in order.
pub fn chars_of(s: &str) -> (r: Vec<char>)
    ensures
        r@ == s@,
{
    let mut out: Vec<char> = Vec::new();
    for c in it: s.chars()
        invariant
            it.seq() == s@,
            out@ =~= s@.take(it.index()),
    {
        out.push(c);
    }
    assert(s@.take(s@.len() as int) =~= s@);
    out
}

/// The string made of the given characters, in order.
pub fn string_of(chars: &Vec<char>) -> (r: String)
    ensures
        r@ == chars@,
{
    let mut out = String::new();
    let mut i: usize = 0;
    while i < chars.len()
        invariant
            i <= chars.len(),
            out@ =~= chars@.take(i as int),
        decreases chars.len() - i,
    {
        out.push(chars[i]);
        i += 1;
    }
    assert(chars@.take(chars@.len() as int) =~= chars@);
    out
}

/// The characters of `chars` from index `from` up to, not including, `to`.
pub fn sub_chars(chars: &Vec<char>, from: usize, to: usize) -> (r: Vec<char>)
    requires
        from <= to <= chars.len(),
    ensures
        r@ == chars@.subrange(from as int, to as int),
{
    let mut out: Vec<char> = Vec::new();
    let mut i: usize = from;
    while i < to
        invariant
            from <= i <= to <= chars.len(),
            out@ =~= chars@.subrange(from as int, i as int),
        decreases to - i,
    {
        out.push(chars[i]);
        i += 1;
    }
    out
}

/// Whether `c` has the `White_Space` property.
pub fn is_space(c: char) -> (r: bool)
    ensures
        r == is_whitespace(c),
{
    let n: u32 = c as u32;
    (0x09 <= n && n <= 0x0D) || n == 0x20 || n == 0x85 || n == 0xA0 || n == 0x1680 || (0x2000 <= n
        && n <= 0x200A) || n == 0x2028 || n == 0x2029 || n == 0x202F || n == 0x205F || n == 0x3000
}

/// Index of the first `c` in `chars`, or the length when `c` does not occur.
pub fn find_char(chars: &Vec<char>, c: char) -> (r: usize)
    ensures
        r == position_of(chars@, c),
{
    let mut i: usize = 0;
    while i < chars.len() && chars[i] != c
        invariant
            i <= chars.len(),
            forall|j: int| 0 <= j < i ==> chars@[j] != c,
        decreases chars.len() - i,
    {
        i += 1;
    }
    proof {
        lemma_position_of_unique(chars@, c, i as int);
    }
    i
}

/// Whether `c` occurs in `chars`.
pub fn contains_char(chars: &Vec<char>, c: char) -> (r: bool)
    ensures
        r == chars@.contains(c),
{
    let p = find_char(chars, c);
    proof {
        lemma_position_of(chars@, c);
    }
    p < chars.len()
}

/// Whether `chars` begins with `prefix`.
pub fn starts_with(chars: &Vec<char>, prefix: &Vec<char>) -> (r: bool)
    ensures
        r == prefix@.is_prefix_of(chars@),
{
    if prefix.len() > chars.len() {
        return false;
    }
    let mut i: usize = 0;
    while i < prefix.len()
        invariant
            i <= prefix.len() <= chars.len(),
            forall|j: int| 0 <= j < i ==> prefix@[j] == chars@[j],
        decreases prefix.len() - i,
    {
        if prefix[i] != chars[i] {
            assert(prefix@[i as int] != chars@.subrange(0, prefix@.len() as int)[i as int]);
            return false;
        }
        i += 1;
    }
    assert(prefix@ =~= chars@.subrange(0, prefix@.len() as int));
    true
}

/// Whether the two sequences hold the same characters.
pub fn chars_eq(a: &Vec<char>, b: &Vec<char>) -> (r: bool)
    ensures
        r == (a@ == b@),
{
    if a.len() != b.len() {
        return false;
    }
    let mut i: usize = 0;
    while i < a.len()
        invariant
            i <= a.len(),
            a.len() == b.len(),
            forall|j: int| 0 <= j < i ==> a@[j] == b@[j],
        decreases a.len() - i,
    {
        if a[i] != b[i] {
            return false;
        }
        i += 1;
    }
    assert(a@ =~= b@);
    true
}

/// `chars` without its leading whitespace.
pub fn skip_leading_whitespace(chars: &Vec<char>) -> (r: Vec<char>)
    ensures
        r@ == trim_start(chars@),
{
    let mut i: usize = 0;
    while i < chars.len() && is_space(chars[i])
        invariant
            i <= chars.len(),
            forall|j: int| 0 <= j < i ==> is_whitespace(#[trigger] chars@[j]),
        decreases chars.len() - i,
    {
        i += 1;
    }
    proof {
        lemma_leading_whitespace_unique(chars@, i as int);
    }
    sub_chars(chars, i, chars.len())
}

/// `chars` without its trailing whitespace.
pub fn strip_trailing_whitespace(chars: &Vec<char>) -> (r: Vec<char>)
    ensures
        r@ == trim_end(chars@),
{
    let mut n: usize = chars.len();
    while n > 0 && is_space(chars[n - 1])
        invariant
            n <= chars.len(),
            forall|j: int| n <= j < chars.len() ==> is_whitespace(#[trigger] chars@[j]),
        decreases n,
    {
        n -= 1;
    }
    proof {
        lemma_trim_end_unique(chars@, n as int);
    }
    sub_chars(chars, 0, n)
}

/// `chars` without its leading and trailing whitespace.
pub fn trimmed(chars: &Vec<char>) -> (r: Vec<char>)
    ensures
        r@ == trim(chars@),
{
    strip_trailing_whitespace(&skip_leading_whitespace(chars))
}

/// `chars` without its leading occurrences of `c`.
pub fn skip_leading(chars: &Vec<char>, c: char) -> (r: Vec<char>)
    ensures
        r@ == trim_leading(chars@, c),
{
    let mut i: usize = 0;
    while i < chars.len() && chars[i] == c
        invariant
            i <= chars.len(),
            forall|j: int| 0 <= j < i ==> chars@[j] == c,
        decreases chars.len() - i,
    {
        i += 1;
    }
    proof {
        lemma_leading_count_unique(chars@, c, i as int);
    }
    sub_chars(chars, i, chars.len())
}

/// `chars` without its trailing carriage returns and line feeds.
pub fn strip_line_end(chars: &Vec<char>) -> (r: Vec<char>)
    ensures
        r@ == trim_line_end(chars@),
{
    let mut n: usize = chars.len();
    while n > 0 && (chars[n - 1] == '\r' || chars[n - 1] == '\n')
        invariant
            n <= chars.len(),
            forall|j: int| n <= j < chars.len() ==> is_line_end(#[trigger] chars@[j]),
        decreases n,
    {
        n -= 1;
    }
    proof {
        lemma_trim_line_end_unique(chars@, n as int);
    }
    sub_chars(chars, 0, n)
}

/// `chars` without its trailing line feeds.
pub fn strip_newlines(chars: &Vec<char>) -> (r: Vec<char>)
    ensures
        r@ == trim_newlines(chars@),
{
    let mut n: usize = chars.len();
    while n > 0 && chars[n - 1] == '\n'
        invariant
            n <= chars.len(),
            forall|j: int| n <= j < chars.len() ==> #[trigger] chars@[j] == '\n',
        decreases n,
    {
        n -= 1;
    }
    proof {
        lemma_trim_newlines_unique(chars@, n as int);
    }
    sub_chars(chars, 0, n)
}

/// Whether `chars` holds nothing but whitespace.
pub fn all_whitespace(chars: &Vec<char>) -> (r: bool)
    ensures
        r == is_blank(chars@),
{
    let mut i: usize = 0;
    while i < chars.len()
        invariant
            i <= chars.len(),
            forall|j: int| 0 <= j < i ==> is_whitespace(#[trigger] chars@[j]),
        decreases chars.len() - i,
    {
        if !is_space(chars[i]) {
            return false;
        }
        i += 1;
    }
    true
}

} // verus!
