use vstd::prelude::*;

verus! {

/// The characters that carry the Unicode `White_Space` property, which is what
/// `char::is_whitespace` and `str::trim` go by.
pub open spec fn is_unicode_whitespace(c: char) -> bool {
    ||| c == '\t' || c == '\n' || c == '\u{0B}' || c == '\u{0C}' || c == '\r' || c == ' '
    ||| c == '\u{85}' || c == '\u{A0}' || c == '\u{1680}'
    ||| ('\u{2000}' <= c && c <= '\u{200A}')
    ||| c == '\u{2028}' || c == '\u{2029}' || c == '\u{202F}' || c == '\u{205F}' || c == '\u{3000}'
}

/// `s` without its leading whitespace.
pub open spec fn trim_start_view(s: Seq<char>) -> Seq<char>
    decreases s.len(),
{
    if s.len() > 0 && is_unicode_whitespace(s[0]) {
        trim_start_view(s.drop_first())
    } else {
        s
    }
}

/// `s` without its trailing whitespace.
pub open spec fn trim_end_view(s: Seq<char>) -> Seq<char>
    decreases s.len(),
{
    if s.len() > 0 && is_unicode_whitespace(s.last()) {
        trim_end_view(s.drop_last())
    } else {
        s
    }
}

/// `s` without whitespace at either end, as `str::trim` gives it.
pub open spec fn trimmed(s: Seq<char>) -> Seq<char> {
    trim_end_view(trim_start_view(s))
}

/// True exactly when `s` holds nothing but whitespace.
pub open spec fn is_blank_view(s: Seq<char>) -> bool {
    trimmed(s).len() == 0
}

/// What trimming the start leaves begins with something other than whitespace.
pub proof fn lemma_trim_start_shape(s: Seq<char>)
    ensures
        trim_start_view(s).len() == 0 || !is_unicode_whitespace(trim_start_view(s)[0]),
    decreases s.len(),
{
    if s.len() > 0 && is_unicode_whitespace(s[0]) {
        lemma_trim_start_shape(s.drop_first());
    }
}

/// What trimming the end leaves is a start of `s` that ends in something other
/// than whitespace.
pub proof fn lemma_trim_end_shape(s: Seq<char>)
    ensures
        trim_end_view(s) == s.subrange(0, trim_end_view(s).len() as int),
        trim_end_view(s).len() <= s.len(),
        trim_end_view(s).len() == 0 || !is_unicode_whitespace(trim_end_view(s).last()),
    decreases s.len(),
{
    if s.len() > 0 && is_unicode_whitespace(s.last()) {
        lemma_trim_end_shape(s.drop_last());
        let t = trim_end_view(s.drop_last());
        assert(s.drop_last().subrange(0, t.len() as int) =~= s.subrange(0, t.len() as int));
    } else {
        assert(s.subrange(0, s.len() as int) =~= s);
    }
}

/// Trimming text that is already trimmed changes nothing.
pub proof fn lemma_trimmed_is_idempotent(s: Seq<char>)
    ensures
        trimmed(trimmed(s)) == trimmed(s),
{
    let u = trim_start_view(s);
    let t = trim_end_view(u);
    lemma_trim_start_shape(s);
    lemma_trim_end_shape(u);
    if t.len() > 0 {
        assert(t[0] == u[0]);
    }
    assert(trim_start_view(t) == t);
    if t.len() > 0 {
        assert(trim_end_view(t) == t);
    }
}

pub fn is_whitespace_char(c: char) -> (ws: bool)
    ensures
        ws == is_unicode_whitespace(c),
{
    c == '\t' || c == '\n' || c == '\u{0B}' || c == '\u{0C}' || c == '\r' || c == ' ' || c
        == '\u{85}' || c == '\u{A0}' || c == '\u{1680}' || ('\u{2000}' <= c && c <= '\u{200A}')
        || c == '\u{2028}' || c == '\u{2029}' || c == '\u{202F}' || c == '\u{205F}' || c
        == '\u{3000}'
}

/// `s` with the whitespace at both ends removed.
pub fn trim(s: &str) -> (t: String)
    ensures
        t@ == trimmed(s@),
{
    let n = s.unicode_len();
    let mut start: usize = 0;
    assert(s@.subrange(0, n as int) =~= s@);
    while start < n && is_whitespace_char(s.get_char(start))
        invariant
            n == s@.len(),
            start <= n,
            trim_start_view(s@) == trim_start_view(s@.subrange(start as int, n as int)),
        decreases n - start,
    {
        proof {
            let rest = s@.subrange(start as int, n as int);
            assert(rest.drop_first() =~= s@.subrange(start + 1, n as int));
        }
        start = start + 1;
    }
    proof {
        if start < n {
            assert(trim_start_view(s@.subrange(start as int, n as int)) == s@.subrange(start as int, n as int));
        } else {
            assert(s@.subrange(start as int, n as int).len() == 0);
        }
    }
    let mut end: usize = n;
    while end > start && is_whitespace_char(s.get_char(end - 1))
        invariant
            n == s@.len(),
            start <= end <= n,
            trim_start_view(s@) == s@.subrange(start as int, n as int),
            trimmed(s@) == trim_end_view(s@.subrange(start as int, end as int)),
        decreases end - start,
    {
        proof {
            let rest = s@.subrange(start as int, end as int);
            assert(rest.drop_last() =~= s@.subrange(start as int, end - 1));
        }
        end = end - 1;
    }
    proof {
        let rest = s@.subrange(start as int, end as int);
        if end > start {
            assert(rest.last() == s@[end - 1]);
        }
        assert(trim_end_view(rest) == rest);
    }
    s.substring_char(start, end).to_owned()
}

/// Whether `s` is empty once trimmed.
pub fn is_blank(s: &str) -> (blank: bool)
    ensures
        blank == is_blank_view(s@),
{
    let t = trim(s);
    t.as_str().unicode_len() == 0
}

} // verus!

verus! {

/// `a` followed by `b`.
pub fn concat(a: &str, b: &str) -> (joined: String)
    ensures
        joined@ == a@ + b@,
{
    let mut joined = a.to_owned();
    joined.append(b);
    joined
}

} // verus!

verus! {

/// Appends one character through `String::push`, which adds exactly that
/// character at the end of the string.
#[verifier::external_body]
pub(crate) fn push_char(s: &mut String, c: char)
    ensures
        final(s)@ == old(s)@.push(c),
{
    s.push(c)
}

/// The characters of `s`, in order.
pub fn chars_of(s: &str) -> (chars: Vec<char>)
    ensures
        chars@ == s@,
{
    let n = s.unicode_len();
    let mut chars: Vec<char> = Vec::new();
    for i in 0..n
        invariant
            n == s@.len(),
            chars@ == s@.subrange(0, i as int),
    {
        chars.push(s.get_char(i));
        assert(chars@ =~= s@.subrange(0, i + 1));
    }
    assert(s@.subrange(0, n as int) =~= s@);
    chars
}

/// The string made of `chars`.
pub fn string_of(chars: &[char]) -> (s: String)
    ensures
        s@ == chars@,
{
    let mut s = String::new();
    for i in 0..chars.len()
        invariant
            s@ == chars@.subrange(0, i as int),
    {
        push_char(&mut s, chars[i]);
        assert(s@ =~= chars@.subrange(0, i + 1));
    }
    assert(chars@.subrange(0, chars@.len() as int) =~= chars@);
    s
}

/// `c` with an ASCII capital letter made small.
pub open spec fn ascii_lower(c: char) -> char {
    if 'A' <= c && c <= 'Z' { ((c as u32) + 32) as char } else { c }
}

/// `c` with an ASCII small letter made capital.
pub open spec fn ascii_upper(c: char) -> char {
    if 'a' <= c && c <= 'z' { ((c as u32) - 32) as char } else { c }
}

/// `s` with its ASCII letters made small, as `str::to_ascii_lowercase` gives it.
pub open spec fn ascii_lowercase_view(s: Seq<char>) -> Seq<char> {
    s.map_values(|c: char| ascii_lower(c))
}

pub fn lower_ascii_char(c: char) -> (lower: char)
    ensures
        lower == ascii_lower(c),
{
    if 'A' <= c && c <= 'Z' {
        let code: u8 = (c as u8) + 32;
        code as char
    } else {
        c
    }
}

/// `s` with its ASCII letters made small.
pub fn to_ascii_lowercase(s: &str) -> (lower: String)
    ensures
        lower@ == ascii_lowercase_view(s@),
{
    let chars = chars_of(s);
    let mut lower = String::new();
    for i in 0..chars.len()
        invariant
            chars@ == s@,
            lower@ == ascii_lowercase_view(s@.subrange(0, i as int)),
    {
        push_char(&mut lower, lower_ascii_char(chars[i]));
        assert(ascii_lowercase_view(s@.subrange(0, i + 1)) =~= ascii_lowercase_view(s@.subrange(0, i as int)).push(ascii_lower(s@[i as int])));
    }
    assert(s@.subrange(0, chars@.len() as int) =~= s@);
    lower
}

/// `needle` occurs in `haystack` starting at `at`.
pub open spec fn occurs_at(haystack: Seq<char>, needle: Seq<char>, at: int) -> bool {
    0 <= at && at + needle.len() <= haystack.len() && haystack.subrange(at, at + needle.len()) == needle
}

/// `needle` occurs somewhere in `haystack`.
pub open spec fn contains_view(haystack: Seq<char>, needle: Seq<char>) -> bool {
    exists|at: int| occurs_at(haystack, needle, at)
}

/// Whether `needle` occurs in `haystack` starting at `at`.
fn occurs_at_exec(haystack: &Vec<char>, needle: &Vec<char>, at: usize) -> (found: bool)
    requires
        at + needle@.len() <= haystack@.len(),
    ensures
        found == occurs_at(haystack@, needle@, at as int),
{
    let n = needle.len();
    for k in 0..n
        invariant
            n == needle@.len(),
            at + n <= haystack@.len(),
            haystack@.len() == haystack.len(),
            forall|j: int| 0 <= j < k ==> haystack@[at + j] == needle@[j],
    {
        if haystack[at + k] != needle[k] {
            assert(haystack@.subrange(at as int, at + n)[k as int] != needle@[k as int]);
            return false;
        }
    }
    assert(haystack@.subrange(at as int, at + n) =~= needle@);
    true
}

/// Whether `needle` occurs in `haystack`.
pub fn contains_chars(haystack: &Vec<char>, needle: &Vec<char>) -> (found: bool)
    ensures
        found == contains_view(haystack@, needle@),
{
    if needle.len() > haystack.len() {
        return false;
    }
    if needle.len() == 0 {
        assert(occurs_at(haystack@, needle@, 0)) by {
            assert(haystack@.subrange(0, 0) =~= needle@);
        }
        return true;
    }
    let last = haystack.len() - needle.len();
    let mut at: usize = 0;
    while at <= last
        invariant
            last == haystack@.len() - needle@.len(),
            needle@.len() > 0,
            haystack@.len() == haystack.len(),
            forall|j: int| 0 <= j < at ==> !occurs_at(haystack@, needle@, j),
        decreases last + 1 - at,
    {
        if occurs_at_exec(haystack, needle, at) {
            return true;
        }
        at = at + 1;
    }
    false
}

/// Whether `needle` occurs in `haystack`.
pub fn contains_str(haystack: &str, needle: &str) -> (found: bool)
    ensures
        found == contains_view(haystack@, needle@),
{
    contains_chars(&chars_of(haystack), &chars_of(needle))
}

/// Whether `s` begins with `prefix`.
pub fn starts_with_str(s: &str, prefix: &str) -> (found: bool)
    ensures
        found == (prefix@.len() <= s@.len() && s@.subrange(0, prefix@.len() as int) == prefix@),
{
    let haystack = chars_of(s);
    let needle = chars_of(prefix);
    if needle.len() > haystack.len() {
        return false;
    }
    occurs_at_exec(&haystack, &needle, 0)
}

/// The decimal digit for `d`, which is below ten.
pub open spec fn digit_char(d: nat) -> char {
    ((d + 48) as u32) as char
}

/// The decimal representation of `n`, without leading zeros, as `to_string` gives it.
pub open spec fn decimal(n: nat) -> Seq<char>
    decreases n,
{
    if n < 10 {
        seq![digit_char(n)]
    } else {
        decimal(n / 10).push(digit_char(n % 10))
    }
}

/// The decimal representation of a signed number, with a minus sign when negative.
pub open spec fn signed_decimal(n: int) -> Seq<char> {
    if n < 0 { seq!['-'] + decimal((-n) as nat) } else { decimal(n as nat) }
}

fn digit(d: u64) -> (c: char)
    requires
        d < 10,
    ensures
        c == digit_char(d as nat),
{
    let code: u8 = (d as u8) + 48;
    code as char
}

/// `n` written in decimal.
pub fn decimal_string(n: u64) -> (text: String)
    ensures
        text@ == decimal(n as nat),
    decreases n,
{
    if n < 10 {
        let mut text = String::new();
        push_char(&mut text, digit(n));
        assert(text@ =~= seq![digit_char(n as nat)]);
        text
    } else {
        let mut text = decimal_string(n / 10);
        push_char(&mut text, digit(n % 10));
        text
    }
}

/// `n` written in decimal, with a minus sign when negative.
pub fn signed_decimal_string(n: i64) -> (text: String)
    ensures
        text@ == signed_decimal(n as int),
{
    if n < 0 {
        let magnitude: u64 = if n == i64::MIN { 9223372036854775808u64 } else { (-n) as u64 };
        let mut text = String::new();
        push_char(&mut text, '-');
        let digits = decimal_string(magnitude);
        text.append(digits.as_str());
        assert(text@ =~= seq!['-'] + decimal((-(n as int)) as nat));
        text
    } else {
        decimal_string(n as u64)
    }
}

} // verus!
