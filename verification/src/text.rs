//! Text helpers shared by every reader: characters out of a string, ASCII case, and
//! trimming.

use vstd::prelude::*;

verus! {

/// `c` with an ASCII capital turned to lower case, anything else unchanged.
pub open spec fn ascii_lower(c: char) -> char {
    if 'A' <= c && c <= 'Z' {
        ((c as u32) + 32) as char
    } else {
        c
    }
}

/// Two texts that are the same but for the case of ASCII letters.
pub open spec fn eq_ignore_ascii_case(a: Seq<char>, b: Seq<char>) -> bool {
    &&& a.len() == b.len()
    &&& forall|i: int| 0 <= i < a.len() ==> ascii_lower(#[trigger] a[i]) == ascii_lower(b[i])
}

pub fn to_ascii_lower(c: char) -> (r: char)
    ensures
        r == ascii_lower(c),
{
    if 'A' <= c && c <= 'Z' {
        let code: u8 = c as u8;
        (code + 32) as char
    } else {
        c
    }
}

} // verus!

verus! {

/// The characters of `s`, one by one.
pub fn chars_of(s: &str) -> (v: Vec<char>)
    ensures
        v@ == s@,
{
    let mut v: Vec<char> = Vec::new();
    for c in it: s.chars()
        invariant
            v@ == it.seq().take(it.index() as int),
    {
        v.push(c);
    }
    v
}

} // verus!

verus! {

/// Whether `a` and `b` are the same text but for the case of ASCII letters, as
/// `str::eq_ignore_ascii_case` decides it.
pub fn same_ignoring_ascii_case(a: &str, b: &str) -> (r: bool)
    ensures
        r == eq_ignore_ascii_case(a@, b@),
{
    let x = chars_of(a);
    let y = chars_of(b);
    if x.len() != y.len() {
        return false;
    }
    let mut i: usize = 0;
    while i < x.len()
        invariant
            x@ == a@,
            y@ == b@,
            x.len() == y.len(),
            i <= x.len(),
            forall|j: int| 0 <= j < i ==> ascii_lower(#[trigger] x@[j]) == ascii_lower(y@[j]),
        decreases x.len() - i,
    {
        if to_ascii_lower(x[i]) != to_ascii_lower(y[i]) {
            return false;
        }
        i = i + 1;
    }
    true
}

} // verus!

verus! {

/// Two texts that both match a third ignoring ASCII case match each other.
pub proof fn lemma_eq_ignore_ascii_case_shared(t: Seq<char>, a: Seq<char>, b: Seq<char>)
    requires
        eq_ignore_ascii_case(t, a),
        eq_ignore_ascii_case(t, b),
    ensures
        eq_ignore_ascii_case(a, b),
{
    assert forall|i: int| 0 <= i < a.len() implies ascii_lower(#[trigger] a[i]) == ascii_lower(b[i]) by {
        assert(ascii_lower(t[i]) == ascii_lower(a[i]));
        assert(ascii_lower(t[i]) == ascii_lower(b[i]));
    }
}

} // verus!

verus! {

/// Unicode's `White_Space` property, which is what `char::is_whitespace` and `str::trim`
/// go by: the ASCII tab, line feed, vertical tab, form feed, carriage return and space,
/// and the nineteen other spaces and separators Unicode lists.
pub open spec fn is_white_space(c: char) -> bool {
    let u = c as u32;
    ||| 0x09 <= u && u <= 0x0D
    ||| u == 0x20
    ||| u == 0x85
    ||| u == 0xA0
    ||| u == 0x1680
    ||| 0x2000 <= u && u <= 0x200A
    ||| u == 0x2028
    ||| u == 0x2029
    ||| u == 0x202F
    ||| u == 0x205F
    ||| u == 0x3000
}

pub fn white_space(c: char) -> (r: bool)
    ensures
        r == is_white_space(c),
{
    let u = c as u32;
    (0x09 <= u && u <= 0x0D) || u == 0x20 || u == 0x85 || u == 0xA0 || u == 0x1680
        || (0x2000 <= u && u <= 0x200A) || u == 0x2028 || u == 0x2029 || u == 0x202F
        || u == 0x205F || u == 0x3000
}

/// `s` without its leading white space.
pub open spec fn trim_start(s: Seq<char>) -> Seq<char>
    decreases s.len(),
{
    if s.len() > 0 && is_white_space(s[0]) {
        trim_start(s.drop_first())
    } else {
        s
    }
}

/// `s` without its trailing white space.
pub open spec fn trim_end(s: Seq<char>) -> Seq<char>
    decreases s.len(),
{
    if s.len() > 0 && is_white_space(s.last()) {
        trim_end(s.drop_last())
    } else {
        s
    }
}

/// `s` without white space at either end, as `str::trim` gives it.
pub open spec fn trim(s: Seq<char>) -> Seq<char> {
    trim_end(trim_start(s))
}

/// Where the leading white space of `s[from..]` ends.
proof fn lemma_trim_start_skip(s: Seq<char>, k: int)
    requires
        0 <= k <= s.len(),
        forall|j: int| 0 <= j < k ==> is_white_space(#[trigger] s[j]),
    ensures
        trim_start(s) == trim_start(s.subrange(k, s.len() as int)),
    decreases k,
{
    if k > 0 {
        assert(s.drop_first().subrange(k - 1, s.drop_first().len() as int) =~= s.subrange(k, s.len() as int));
        lemma_trim_start_skip(s.drop_first(), k - 1);
    } else {
        assert(s.subrange(0, s.len() as int) =~= s);
    }
}

proof fn lemma_trim_end_skip(s: Seq<char>, k: int)
    requires
        0 <= k <= s.len(),
        forall|j: int| k <= j < s.len() ==> is_white_space(#[trigger] s[j]),
    ensures
        trim_end(s) == trim_end(s.subrange(0, k)),
    decreases s.len() - k,
{
    if k < s.len() {
        assert(s.drop_last().subrange(0, k) =~= s.subrange(0, k));
        lemma_trim_end_skip(s.drop_last(), k);
    } else {
        assert(s.subrange(0, s.len() as int) =~= s);
    }
}

/// The bounds of `v` with white space trimmed off both ends: `trim(v) == v[start..end]`.
pub fn trimmed_bounds(v: &Vec<char>) -> (r: (usize, usize))
    ensures
        r.0 <= r.1 <= v.len(),
        v@.subrange(r.0 as int, r.1 as int) == trim(v@),
{
    let mut start: usize = 0;
    while start < v.len() && white_space(v[start])
        invariant
            start <= v.len(),
            forall|j: int| 0 <= j < start ==> is_white_space(#[trigger] v@[j]),
        decreases v.len() - start,
    {
        start = start + 1;
    }
    let ghost rest = v@.subrange(start as int, v.len() as int);
    proof {
        lemma_trim_start_skip(v@, start as int);
    }
    assert(trim_start(rest) == rest);
    let mut end: usize = v.len();
    while end > start && white_space(v[end - 1])
        invariant
            start <= end <= v.len(),
            forall|j: int| end <= j < v.len() ==> is_white_space(#[trigger] v@[j]),
        decreases end,
    {
        end = end - 1;
    }
    proof {
        lemma_trim_end_skip(rest, end - start);
        assert(rest.subrange(0, end - start) =~= v@.subrange(start as int, end as int));
        let t = v@.subrange(start as int, end as int);
        assert(t.len() == 0 || !is_white_space(t.last()));
    }
    (start, end)
}

/// The characters of `s` with white space trimmed off both ends.
pub fn trimmed_chars(s: &str) -> (v: Vec<char>)
    ensures
        v@ == trim(s@),
{
    let all = chars_of(s);
    let (start, end) = trimmed_bounds(&all);
    slice_chars(&all, start, end)
}

/// `v[start..end]` as a vector of its own.
pub fn slice_chars(v: &Vec<char>, start: usize, end: usize) -> (r: Vec<char>)
    requires
        start <= end <= v.len(),
    ensures
        r@ == v@.subrange(start as int, end as int),
{
    let mut r: Vec<char> = Vec::new();
    let mut i = start;
    while i < end
        invariant
            start <= i <= end <= v.len(),
            r@ == v@.subrange(start as int, i as int),
        decreases end - i,
    {
        r.push(v[i]);
        i = i + 1;
    }
    r
}

/// Appends one character to a string: `String::push`.
#[verifier::external_body]
pub(crate) fn push_char(s: &mut String, c: char)
    ensures
        final(s)@ == old(s)@.push(c),
{
    s.push(c);
}

/// A string holding exactly the characters of `v`.
pub fn string_of(v: &Vec<char>) -> (s: String)
    ensures
        s@ == v@,
{
    let mut s = String::new();
    let mut i: usize = 0;
    while i < v.len()
        invariant
            i <= v.len(),
            s@ == v@.subrange(0, i as int),
        decreases v.len() - i,
    {
        push_char(&mut s, v[i]);
        i = i + 1;
    }
    s
}

} // verus!

verus! {

/// Unicode's alphabetic-or-numeric property, as `char::is_alphanumeric` reports it. The
/// property is defined by Unicode's tables; the library relies on it only through
/// [`alphanumeric`].
pub uninterp spec fn unicode_alphanumeric(c: char) -> bool;

/// `char::is_alphanumeric`: whether `c` is alphabetic or numeric in Unicode's terms.
/// Claimed of it: its answer is [`unicode_alphanumeric`] of `c`, and for an ASCII
/// character that is exactly the letters and the digits. What it answers for the rest of
/// Unicode is not stated here; it comes from Unicode's tables.
#[verifier::external_body]
pub(crate) fn alphanumeric(c: char) -> (r: bool)
    ensures
        r == unicode_alphanumeric(c),
        (c as u32) < 128 ==> r == (('0' <= c && c <= '9') || ('a' <= c && c <= 'z') || ('A' <= c && c <= 'Z')),
{
    c.is_alphanumeric()
}

} // verus!

verus! {

/// The digit for `d`, 0 to 15, with capitals above 9.
pub open spec fn hex_char_upper(d: nat) -> char {
    if d < 10 { ((d + 48) as u32) as char } else { ((d + 55) as u32) as char }
}

/// The lowercase digit for `d`, 0 to 15.
pub open spec fn hex_char_lower(d: nat) -> char {
    if d < 10 { ((d + 48) as u32) as char } else { ((d + 87) as u32) as char }
}

/// The last `n` hexadecimal digits of `v`, zero-padded, most significant first.
pub open spec fn hex_digits(v: nat, n: nat, upper: bool) -> Seq<char>
    decreases n,
{
    if n == 0 {
        Seq::empty()
    } else {
        let d = v % 16;
        hex_digits(v / 16, (n - 1) as nat, upper).push(
            if upper { hex_char_upper(d) } else { hex_char_lower(d) },
        )
    }
}

/// The decimal digits of `v`, most significant first, with no leading zeros.
pub open spec fn decimal_digits(v: nat) -> Seq<char>
    decreases v,
{
    if v < 10 {
        seq![((v + 48) as u32) as char]
    } else {
        decimal_digits(v / 10).push((((v % 10) + 48) as u32) as char)
    }
}

fn digit_char(d: u64, upper: bool) -> (c: char)
    requires
        d < 16,
    ensures
        c == (if upper { hex_char_upper(d as nat) } else { hex_char_lower(d as nat) }),
{
    let b: u8 = d as u8;
    if b < 10 {
        (b + 48) as char
    } else if upper {
        (b + 55) as char
    } else {
        (b + 87) as char
    }
}

/// Appends the last `n` hexadecimal digits of `v`, zero-padded.
pub fn push_hex(s: &mut String, v: u64, n: usize, upper: bool)
    ensures
        final(s)@ == old(s)@ + hex_digits(v as nat, n as nat, upper),
    decreases n,
{
    if n > 0 {
        push_hex(s, v / 16, n - 1, upper);
        let c = digit_char(v % 16, upper);
        push_char(s, c);
    } else {
        assert(old(s)@ + hex_digits(v as nat, 0, upper) =~= old(s)@);
    }
}

/// Appends `v` in decimal.
pub fn push_decimal(s: &mut String, v: u64)
    ensures
        final(s)@ == old(s)@ + decimal_digits(v as nat),
    decreases v,
{
    if v >= 10 {
        push_decimal(s, v / 10);
    }
    let d: u8 = (v % 10) as u8;
    push_char(s, (d + 48) as char);
}

/// Appends every character of `t`.
pub fn push_str(s: &mut String, t: &str)
    ensures
        final(s)@ == old(s)@ + t@,
{
    let v = chars_of(t);
    let mut i: usize = 0;
    while i < v.len()
        invariant
            i <= v.len(),
            v@ == t@,
            s@ == old(s)@ + v@.subrange(0, i as int),
        decreases v.len() - i,
    {
        push_char(s, v[i]);
        i = i + 1;
    }
    assert(v@.subrange(0, v.len() as int) =~= v@);
}

} // verus!

verus! {

/// Unicode text from bytes, with every run that is not UTF-8 replaced by U+FFFD, as
/// `String::from_utf8_lossy` produces it. Where the bytes are UTF-8 this is plain
/// decoding; the replacement rules for the rest are Unicode's and are not written out.
pub uninterp spec fn lossy_utf8(bytes: Seq<u8>) -> Seq<char>;

/// `String::from_utf8_lossy(bytes).into_owned()`. Claimed of it: its text is
/// [`lossy_utf8`] of the bytes, which for valid UTF-8 is the decoded text. How invalid
/// runs are replaced is not stated.
#[verifier::external_body]
pub(crate) fn from_utf8_lossy(bytes: &Vec<u8>) -> (s: String)
    ensures
        s@ == lossy_utf8(bytes@),
        vstd::utf8::valid_utf8(bytes@) ==> s@ == vstd::utf8::decode_utf8(bytes@),
{
    String::from_utf8_lossy(bytes).into_owned()
}

/// Where `c` first occurs in `s`.
pub open spec fn index_of(s: Seq<char>, c: char) -> Option<nat>
    decreases s.len(),
{
    if s.len() == 0 {
        None
    } else if s[0] == c {
        Some(0)
    } else {
        match index_of(s.drop_first(), c) {
            Some(i) => Some(i + 1),
            None => None,
        }
    }
}

proof fn lemma_index_of(s: Seq<char>, c: char, k: int)
    requires
        0 <= k <= s.len(),
        forall|j: int| 0 <= j < k ==> #[trigger] s[j] != c,
    ensures
        k < s.len() && s[k] == c ==> index_of(s, c) == Some(k as nat),
        k == s.len() ==> index_of(s, c) is None,
    decreases k,
{
    if k > 0 {
        lemma_index_of(s.drop_first(), c, k - 1);
    }
}

/// Where `c` first occurs in `v`.
pub fn find_char(v: &Vec<char>, c: char) -> (r: Option<usize>)
    ensures
        match r {
            Some(i) => index_of(v@, c) == Some(i as nat) && i < v.len() && v@[i as int] == c,
            None => index_of(v@, c) is None,
        },
{
    let mut i: usize = 0;
    while i < v.len()
        invariant
            i <= v.len(),
            forall|j: int| 0 <= j < i ==> #[trigger] v@[j] != c,
        decreases v.len() - i,
    {
        if v[i] == c {
            proof { lemma_index_of(v@, c, i as int); }
            return Some(i);
        }
        i = i + 1;
    }
    proof { lemma_index_of(v@, c, i as int); }
    None
}

/// Whether `s` begins with `prefix`.
pub open spec fn starts_with(s: Seq<char>, prefix: Seq<char>) -> bool {
    prefix.len() <= s.len() && s.subrange(0, prefix.len() as int) == prefix
}

pub fn has_prefix(v: &Vec<char>, prefix: &str) -> (r: bool)
    ensures
        r == starts_with(v@, prefix@),
{
    let p = chars_of(prefix);
    if p.len() > v.len() {
        return false;
    }
    let mut i: usize = 0;
    while i < p.len()
        invariant
            p@ == prefix@,
            p.len() <= v.len(),
            i <= p.len(),
            forall|j: int| 0 <= j < i ==> v@[j] == #[trigger] p@[j],
        decreases p.len() - i,
    {
        if v[i] != p[i] {
            assert(v@.subrange(0, p.len() as int)[i as int] != p@[i as int]);
            return false;
        }
        i = i + 1;
    }
    assert(v@.subrange(0, p.len() as int) =~= p@);
    true
}

/// An ASCII letter.
pub open spec fn is_ascii_alphabetic(c: char) -> bool {
    ('a' <= c && c <= 'z') || ('A' <= c && c <= 'Z')
}

/// An ASCII digit.
pub open spec fn is_ascii_digit(c: char) -> bool {
    '0' <= c && c <= '9'
}

} // verus!

verus! {

/// Where `c` first occurs in `s`, for callers outside this module.
pub proof fn lemma_index_of_pub(s: Seq<char>, c: char, k: int)
    requires
        0 <= k <= s.len(),
        forall|j: int| 0 <= j < k ==> #[trigger] s[j] != c,
    ensures
        k < s.len() && s[k] == c ==> index_of(s, c) == Some(k as nat),
        k == s.len() ==> index_of(s, c) is None,
{
    lemma_index_of(s, c, k);
}

/// Whether `s` holds exactly the characters of `t`.
pub fn same_chars(s: &String, t: &str) -> (r: bool)
    ensures
        r == (s@ == t@),
{
    let a = chars_of(s.as_str());
    let b = chars_of(t);
    if a.len() != b.len() {
        return false;
    }
    let mut i: usize = 0;
    while i < a.len()
        invariant
            a@ == s@,
            b@ == t@,
            a.len() == b.len(),
            i <= a.len(),
            forall|j: int| 0 <= j < i ==> #[trigger] a@[j] == b@[j],
        decreases a.len() - i,
    {
        if a[i] != b[i] {
            return false;
        }
        i = i + 1;
    }
    assert(a@ =~= b@);
    true
}

} // verus!

verus! {

/// Trimming only takes characters off the ends: what is left is a run of the text it started from.
pub proof fn lemma_trim_is_slice(s: Seq<char>)
    ensures
        exists|a: int, b: int| 0 <= a <= b <= s.len() && #[trigger] trim(s) == s.subrange(a, b),
{
    lemma_trim_start_slice(s);
    let t = trim_start(s);
    let a = choose|a: int| 0 <= a <= s.len() && trim_start(s) == s.subrange(a, s.len() as int);
    lemma_trim_end_slice(t);
    let b = choose|b: int| 0 <= b <= t.len() && trim_end(t) == t.subrange(0, b);
    assert(trim(s) =~= s.subrange(a, a + b));
}

proof fn lemma_trim_start_slice(s: Seq<char>)
    ensures
        exists|a: int| 0 <= a <= s.len() && #[trigger] trim_start(s) == s.subrange(a, s.len() as int),
    decreases s.len(),
{
    if s.len() > 0 && is_white_space(s[0]) {
        lemma_trim_start_slice(s.drop_first());
        let a = choose|a: int| 0 <= a <= s.drop_first().len() && trim_start(s.drop_first()) == s.drop_first().subrange(a, s.drop_first().len() as int);
        assert(s.drop_first().subrange(a, s.drop_first().len() as int) =~= s.subrange(a + 1, s.len() as int));
    } else {
        assert(s.subrange(0, s.len() as int) =~= s);
    }
}

proof fn lemma_trim_end_slice(s: Seq<char>)
    ensures
        exists|b: int| 0 <= b <= s.len() && #[trigger] trim_end(s) == s.subrange(0, b),
    decreases s.len(),
{
    if s.len() > 0 && is_white_space(s.last()) {
        lemma_trim_end_slice(s.drop_last());
        let b = choose|b: int| 0 <= b <= s.drop_last().len() && trim_end(s.drop_last()) == s.drop_last().subrange(0, b);
        assert(s.drop_last().subrange(0, b) =~= s.subrange(0, b));
    } else {
        assert(s.subrange(0, s.len() as int) =~= s);
    }
}


} // verus!

verus! {

/// Unicode's lower-case mapping of a whole text, as `str::to_lowercase` applies it. The
/// mapping is Unicode's tables; the library relies on it only through
/// [`lowercase`].
pub uninterp spec fn unicode_lowercase(s: Seq<char>) -> Seq<char>;

/// Whether every character of `s` is ASCII.
pub open spec fn all_ascii(s: Seq<char>) -> bool {
    forall|i: int| 0 <= i < s.len() ==> (#[trigger] s[i] as u32) < 128
}

/// `str::to_lowercase`. Claimed of it: its text is [`unicode_lowercase`] of the input,
/// and for ASCII text that is the text with ASCII capitals lowered. What it does to the
/// rest of Unicode is not stated; it comes from Unicode's tables.
#[verifier::external_body]
pub(crate) fn lowercase(s: &str) -> (r: String)
    ensures
        r@ == unicode_lowercase(s@),
        all_ascii(s@) ==> r@ == s@.map_values(|c: char| ascii_lower(c)),
{
    s.to_lowercase()
}

/// Whether `a` comes before `b`, character by character, as `str`'s ordering puts
/// them: UTF-8 keeps the order of code points, so comparing the bytes and comparing the
/// characters agree.
pub open spec fn text_lt(a: Seq<char>, b: Seq<char>) -> bool
    decreases a.len(),
{
    if a.len() == 0 {
        b.len() > 0
    } else if b.len() == 0 {
        false
    } else if a[0] != b[0] {
        (a[0] as u32) < (b[0] as u32)
    } else {
        text_lt(a.drop_first(), b.drop_first())
    }
}

/// No text comes before itself.
pub proof fn lemma_text_lt_irreflexive(a: Seq<char>)
    ensures
        !text_lt(a, a),
    decreases a.len(),
{
    if a.len() > 0 {
        lemma_text_lt_irreflexive(a.drop_first());
    }
}

/// A text before one that is before a third is before the third.
pub proof fn lemma_text_lt_transitive(a: Seq<char>, b: Seq<char>, c: Seq<char>)
    requires
        text_lt(a, b),
        text_lt(b, c),
    ensures
        text_lt(a, c),
    decreases a.len(),
{
    if a.len() > 0 && b.len() > 0 && c.len() > 0 && a[0] == b[0] && b[0] == c[0] {
        lemma_text_lt_transitive(a.drop_first(), b.drop_first(), c.drop_first());
    }
}

/// Of two different texts, one comes before the other.
pub proof fn lemma_text_lt_total(a: Seq<char>, b: Seq<char>)
    ensures
        text_lt(a, b) || text_lt(b, a) || a == b,
    decreases a.len(),
{
    if a.len() > 0 && b.len() > 0 && a[0] == b[0] {
        lemma_text_lt_total(a.drop_first(), b.drop_first());
        if a.drop_first() == b.drop_first() {
            assert(a =~= seq![a[0]] + a.drop_first());
            assert(b =~= seq![b[0]] + b.drop_first());
        }
    } else if a.len() == 0 && b.len() == 0 {
        assert(a =~= b);
    } else if a.len() > 0 && b.len() > 0 {
        vstd::utf8::char_u32_cast(a[0], a[0] as u32);
        vstd::utf8::char_u32_cast(b[0], b[0] as u32);
    }
}

/// Whether `a` comes before `b`.
fn text_less(a: &Vec<char>, b: &Vec<char>) -> (r: bool)
    ensures
        r == text_lt(a@, b@),
{
    let mut i: usize = 0;
    assert(a@.subrange(0, a@.len() as int) =~= a@);
    assert(b@.subrange(0, b@.len() as int) =~= b@);
    while i < a.len() && i < b.len() && a[i] == b[i]
        invariant
            i <= a.len(),
            i <= b.len(),
            text_lt(a@, b@) == text_lt(a@.subrange(i as int, a@.len() as int), b@.subrange(i as int, b@.len() as int)),
        decreases a.len() - i,
    {
        let ghost (x, y) = (a@.subrange(i as int, a@.len() as int), b@.subrange(i as int, b@.len() as int));
        assert(x.drop_first() =~= a@.subrange(i + 1, a@.len() as int));
        assert(y.drop_first() =~= b@.subrange(i + 1, b@.len() as int));
        i = i + 1;
    }
    if i == a.len() {
        i < b.len()
    } else if i == b.len() {
        false
    } else {
        (a[i] as u32) < (b[i] as u32)
    }
}

/// Whether item `i` comes before item `j` when sorted by `keys` and, among equal keys,
/// by where they started.
pub open spec fn before(keys: Seq<Seq<char>>, i: int, j: int) -> bool {
    text_lt(keys[i], keys[j]) || (keys[i] == keys[j] && i < j)
}

proof fn lemma_before_transitive(keys: Seq<Seq<char>>, a: int, b: int, c: int)
    requires
        before(keys, a, b),
        before(keys, b, c),
    ensures
        before(keys, a, c),
{
    if text_lt(keys[a], keys[b]) && text_lt(keys[b], keys[c]) {
        lemma_text_lt_transitive(keys[a], keys[b], keys[c]);
    }
}

/// `order` lists every position of `keys` once, in [`before`] order: the order a stable
/// sort by the keys gives.
pub open spec fn is_stable_order(keys: Seq<Seq<char>>, order: Seq<int>) -> bool {
    &&& order.len() == keys.len()
    &&& forall|i: int| 0 <= i < order.len() ==> 0 <= #[trigger] order[i] < keys.len()
    &&& forall|i: int, j: int| 0 <= i < j < order.len() ==> before(keys, #[trigger] order[i], #[trigger] order[j])
}

/// The texts held in `v`.
pub open spec fn texts_of(v: Seq<Vec<char>>) -> Seq<Seq<char>> {
    Seq::new(v.len(), |i: int| v[i]@)
}

/// The positions held in `v`, as integers.
pub open spec fn positions_of(v: Seq<usize>) -> Seq<int> {
    Seq::new(v.len(), |i: int| v[i] as int)
}

/// The order a stable sort by `keys` puts the items in: for each place, which item goes
/// there.
pub fn stable_order(keys: &Vec<Vec<char>>) -> (r: Vec<usize>)
    ensures
        is_stable_order(texts_of(keys@), positions_of(r@)),
{
    let ghost ks = texts_of(keys@);
    let mut r: Vec<usize> = Vec::new();
    let mut k: usize = 0;
    while k < keys.len()
        invariant
            k <= keys.len(),
            ks == texts_of(keys@),
            r@.len() == k,
            forall|i: int| 0 <= i < r@.len() ==> 0 <= #[trigger] r@[i] < k,
            forall|i: int, j: int| 0 <= i < j < r@.len() ==> before(ks, #[trigger] r@[i] as int, #[trigger] r@[j] as int),
        decreases keys.len() - k,
    {
        let mut p = r.len();
        while p > 0 && text_less(&keys[k], &keys[r[p - 1]])
            invariant
                p <= r@.len(),
                k < keys.len(),
                ks == texts_of(keys@),
                forall|i: int| 0 <= i < r@.len() ==> 0 <= #[trigger] r@[i] < k,
                forall|j: int| p <= j < r@.len() ==> text_lt(ks[k as int], #[trigger] ks[r@[j] as int]),
            decreases p,
        {
            p = p - 1;
        }
        proof {
            let old_r = r@;
            if p > 0 {
                lemma_text_lt_total(ks[k as int], ks[old_r[p - 1] as int]);
                assert(before(ks, old_r[p - 1] as int, k as int));
            }
            let n = old_r.insert(p as int, k);
            assert forall|i: int, j: int| 0 <= i < j < n.len() implies before(ks,
                #[trigger] n[i] as int, #[trigger] n[j] as int) by {
                if j < p {
                    assert(n[i] == old_r[i] && n[j] == old_r[j]);
                } else if j == p {
                    assert(n[i] == old_r[i]);
                    if i < p - 1 {
                        assert(before(ks, old_r[i] as int, old_r[p - 1] as int));
                        lemma_before_transitive(ks, old_r[i] as int, old_r[p - 1] as int, k as int);
                    }
                } else if i == p {
                    assert(n[j] == old_r[j - 1]);
                } else if i < p {
                    assert(n[i] == old_r[i] && n[j] == old_r[j - 1]);
                } else {
                    assert(n[i] == old_r[i - 1] && n[j] == old_r[j - 1]);
                }
            }
            assert forall|i: int| 0 <= i < n.len() implies 0 <= #[trigger] n[i] < k + 1 by {
                if i < p {
                    assert(n[i] == old_r[i]);
                } else if i > p {
                    assert(n[i] == old_r[i - 1]);
                }
            }
        }
        r.insert(p, k);
        k = k + 1;
    }
    r
}

} // verus!

verus! {

/// Whether `pat` occurs in `s` starting at `i`.
pub open spec fn occurs_at(s: Seq<char>, pat: Seq<char>, i: int) -> bool {
    0 <= i && i + pat.len() <= s.len() && s.subrange(i, i + pat.len()) == pat
}

/// The first place at or after `i` where `pat` occurs in `s`.
pub open spec fn find_from(s: Seq<char>, pat: Seq<char>, i: int) -> Option<int>
    decreases s.len() + 1 - i,
{
    if i < 0 || i + pat.len() > s.len() {
        None
    } else if occurs_at(s, pat, i) {
        Some(i)
    } else {
        find_from(s, pat, i + 1)
    }
}

/// The last place at or before `i` where `pat` occurs in `s`.
pub open spec fn rfind_from(s: Seq<char>, pat: Seq<char>, i: int) -> Option<int>
    decreases i + 1,
{
    if i < 0 {
        None
    } else if occurs_at(s, pat, i) {
        Some(i)
    } else {
        rfind_from(s, pat, i - 1)
    }
}

/// Whether `pat` occurs in `s` at `i`.
fn matches_at(s: &Vec<char>, pat: &Vec<char>, i: usize) -> (r: bool)
    requires
        i + pat.len() <= s.len(),
    ensures
        r == occurs_at(s@, pat@, i as int),
{
    let mut k: usize = 0;
    while k < pat.len()
        invariant
            k <= pat.len(),
            i + pat.len() <= s.len(),
            forall|j: int| 0 <= j < k ==> s@[i + j] == pat@[j],
        decreases pat.len() - k,
    {
        if s[i + k] != pat[k] {
            proof {
                let sub = s@.subrange(i as int, i + pat@.len());
                assert(sub[k as int] != pat@[k as int]);
            }
            return false;
        }
        k = k + 1;
    }
    proof {
        assert(s@.subrange(i as int, i + pat@.len()) =~= pat@);
    }
    true
}

/// The first place where `pat` occurs in `s`.
pub fn find_text(s: &Vec<char>, pat: &Vec<char>) -> (r: Option<usize>)
    ensures
        match r {
            Some(i) => find_from(s@, pat@, 0) == Some(i as int),
            None => find_from(s@, pat@, 0) is None,
        },
{
    if pat.len() > s.len() {
        return None;
    }
    let last = s.len() - pat.len();
    let mut i: usize = 0;
    loop
        invariant
            last + pat.len() == s.len(),
            i <= last,
            find_from(s@, pat@, 0) == find_from(s@, pat@, i as int),
        decreases last - i,
    {
        if matches_at(s, pat, i) {
            return Some(i);
        }
        if i == last {
            proof {
                assert(find_from(s@, pat@, i + 1) is None);
            }
            return None;
        }
        i = i + 1;
    }
}

/// The last place where `pat` occurs in `s`.
pub fn rfind_text(s: &Vec<char>, pat: &Vec<char>) -> (r: Option<usize>)
    ensures
        match r {
            Some(i) => rfind_from(s@, pat@, s@.len() - pat@.len()) == Some(i as int),
            None => rfind_from(s@, pat@, s@.len() - pat@.len()) is None,
        },
{
    if pat.len() > s.len() {
        return None;
    }
    let mut i: usize = s.len() - pat.len();
    loop
        invariant
            i + pat.len() <= s.len(),
            rfind_from(s@, pat@, s@.len() - pat@.len()) == rfind_from(s@, pat@, i as int),
        decreases i,
    {
        if matches_at(s, pat, i) {
            return Some(i);
        }
        if i == 0 {
            proof {
                assert(rfind_from(s@, pat@, -1) is None);
            }
            return None;
        }
        i = i - 1;
    }
}

} // verus!

verus! {

/// A place [`rfind_from`] finds lies where the pattern fits.
pub proof fn lemma_rfind_in_range(s: Seq<char>, pat: Seq<char>, i: int)
    ensures
        rfind_from(s, pat, i) matches Some(k) ==> 0 <= k <= i && occurs_at(s, pat, k),
    decreases i + 1,
{
    if i >= 0 && !occurs_at(s, pat, i) {
        lemma_rfind_in_range(s, pat, i - 1);
    }
}

} // verus!

verus! {

/// A place [`find_from`] finds lies where the pattern fits.
pub proof fn lemma_find_in_range(s: Seq<char>, pat: Seq<char>, i: int)
    ensures
        find_from(s, pat, i) matches Some(k) ==> i <= k && occurs_at(s, pat, k),
    decreases s.len() + 1 - i,
{
    if i >= 0 && i + pat.len() <= s.len() && !occurs_at(s, pat, i) {
        lemma_find_in_range(s, pat, i + 1);
    }
}

} // verus!

verus! {

proof fn lemma_trim_start_front(s: Seq<char>)
    ensures
        trim_start(s).len() > 0 ==> !is_white_space(trim_start(s)[0]),
    decreases s.len(),
{
    if s.len() > 0 && is_white_space(s[0]) {
        lemma_trim_start_front(s.drop_first());
    }
}

proof fn lemma_trim_end_back(s: Seq<char>)
    ensures
        trim_end(s).len() > 0 ==> !is_white_space(trim_end(s).last()),
    decreases s.len(),
{
    if s.len() > 0 && is_white_space(s.last()) {
        lemma_trim_end_back(s.drop_last());
    }
}

proof fn lemma_trim_end_keeps_front(s: Seq<char>)
    ensures
        trim_end(s).len() > 0 ==> trim_end(s)[0] == s[0],
    decreases s.len(),
{
    if s.len() > 0 && is_white_space(s.last()) {
        lemma_trim_end_keeps_front(s.drop_last());
    }
}

/// Trimmed text has no white space at either end, so trimming it again changes nothing.
pub proof fn lemma_trim_is_idempotent(s: Seq<char>)
    ensures
        trim(trim(s)) == trim(s),
        trim(s).len() > 0 ==> !is_white_space(trim(s)[0]) && !is_white_space(trim(s).last()),
{
    let a = trim_start(s);
    let t = trim_end(a);
    lemma_trim_start_front(s);
    lemma_trim_end_back(a);
    lemma_trim_end_keeps_front(a);
    if t.len() > 0 {
        assert(trim_start(t) == t);
        assert(trim_end(t) == t);
    } else {
        assert(trim_start(t) == t);
        assert(trim_end(t) == t);
    }
}

} // verus!
