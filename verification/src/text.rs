//! Text operations on strings, stated over sequences of characters.

use vstd::prelude::*;

verus! {

// ---------------------------------------------------------------------------
// Standard library operations on strings
// ---------------------------------------------------------------------------

/// `String::push` appends one character.
pub assume_specification[ String::push ](s: &mut String, c: char)
    ensures
        final(s)@ == old(s)@.push(c),
;

/// `==` on string slices holds exactly when the characters are the same.
pub assume_specification[ <str as PartialEq>::eq ](a: &str, b: &str) -> (r: bool)
    ensures
        r == (a@ == b@),
;

/// The result of `str::to_lowercase` on a text.
pub uninterp spec fn unicode_lower(s: Seq<char>) -> Seq<char>;

/// The result of `str::to_uppercase` on a text.
pub uninterp spec fn unicode_upper(s: Seq<char>) -> Seq<char>;

/// `str::to_lowercase`: the Unicode lower case of the text, a function of the
/// text alone.
#[verifier::external_body]
pub(crate) fn lowercase(s: &str) -> (r: String)
    ensures
        r@ == unicode_lower(s@),
{
    s.to_lowercase()
}

/// `str::to_uppercase`: the Unicode upper case of the text, a function of the
/// text alone.
#[verifier::external_body]
pub(crate) fn uppercase(s: &str) -> (r: String)
    ensures
        r@ == unicode_upper(s@),
{
    s.to_uppercase()
}

/// The result of formatting a list of strings with `{:?}`.
pub uninterp spec fn debug_list(v: Seq<Seq<char>>) -> Seq<char>;

/// `format!` with `{:?}` of a list of strings: a function of the texts alone.
#[verifier::external_body]
pub(crate) fn debug_strings(v: &Vec<String>) -> (r: String)
    ensures
        r@ == debug_list(texts(v@)),
{
    format!("{:?}", v)
}

/// The result of `String::from_utf8_lossy` on bytes.
pub uninterp spec fn lossy_text(bytes: Seq<u8>) -> Seq<char>;

/// `String::from_utf8_lossy`: the text that the bytes spell in UTF-8, with
/// replacements where they spell none; a function of the bytes alone.
#[verifier::external_body]
pub(crate) fn lossy_string(bytes: &[u8]) -> (r: String)
    ensures
        r@ == lossy_text(bytes@),
{
    String::from_utf8_lossy(bytes).into_owned()
}

// ---------------------------------------------------------------------------
// Model
// ---------------------------------------------------------------------------

/// The texts held by a sequence of strings.
pub open spec fn texts(v: Seq<String>) -> Seq<Seq<char>> {
    v.map_values(|s: String| s@)
}

/// `p` stands in `s` at position `i`.
pub open spec fn occurs_at(s: Seq<char>, p: Seq<char>, i: int) -> bool {
    0 <= i && i + p.len() <= s.len() && s.subrange(i, i + p.len()) == p
}

/// `p` stands somewhere in `s`.
pub open spec fn has_text(s: Seq<char>, p: Seq<char>) -> bool {
    exists|i: int| occurs_at(s, p, i)
}

/// One of the texts `ps` stands in `s`.
pub open spec fn has_any(s: Seq<char>, ps: Seq<Seq<char>>) -> bool {
    exists|k: int| 0 <= k < ps.len() && #[trigger] has_text(s, ps[k])
}

/// `s` begins with `p`.
pub open spec fn begins_with(s: Seq<char>, p: Seq<char>) -> bool {
    p.len() <= s.len() && s.take(p.len() as int) == p
}

/// `s` ends with `p`.
pub open spec fn finishes_with(s: Seq<char>, p: Seq<char>) -> bool {
    p.len() <= s.len() && s.skip(s.len() - p.len()) == p
}

/// The white space characters of Unicode.
pub open spec fn is_space(c: char) -> bool {
    let n = c as int;
    0x09 <= n <= 0x0d || n == 0x20 || n == 0x85 || n == 0xa0 || n == 0x1680 || 0x2000 <= n <= 0x200a
        || n == 0x2028 || n == 0x2029 || n == 0x202f || n == 0x205f || n == 0x3000
}

/// `s` without the white space at its start.
pub open spec fn trimmed_start(s: Seq<char>) -> Seq<char>
    decreases s.len(),
{
    if s.len() > 0 && is_space(s[0]) {
        trimmed_start(s.skip(1))
    } else {
        s
    }
}

/// `s` without the white space at its end.
pub open spec fn trimmed_end(s: Seq<char>) -> Seq<char>
    decreases s.len(),
{
    if s.len() > 0 && is_space(s.last()) {
        trimmed_end(s.drop_last())
    } else {
        s
    }
}

/// `s` without the white space at both ends.
pub open spec fn trimmed(s: Seq<char>) -> Seq<char> {
    trimmed_end(trimmed_start(s))
}

/// `s` holds nothing but white space.
pub open spec fn is_blank(s: Seq<char>) -> bool {
    forall|i: int| 0 <= i < s.len() ==> is_space(#[trigger] s[i])
}

/// The lower case of an ASCII letter; every other character itself.
pub open spec fn lower_char(c: char) -> char {
    if 'A' <= c <= 'Z' {
        ((c as u32 + 32) as u32) as char
    } else {
        c
    }
}

/// `s` with its ASCII letters in lower case.
pub open spec fn ascii_lower(s: Seq<char>) -> Seq<char> {
    s.map_values(|c: char| lower_char(c))
}

pub open spec fn is_ascii_digit(c: char) -> bool {
    '0' <= c <= '9'
}

pub open spec fn is_ascii_letter(c: char) -> bool {
    'a' <= c <= 'z' || 'A' <= c <= 'Z'
}

pub open spec fn is_ascii_alnum(c: char) -> bool {
    is_ascii_digit(c) || is_ascii_letter(c)
}

/// The decimal digit character of `d`.
pub open spec fn digit_char(d: int) -> char {
    (48 + d) as char
}

/// `n` in decimal notation.
pub open spec fn decimal(n: nat) -> Seq<char>
    decreases n,
{
    if n < 10 {
        seq![digit_char(n as int)]
    } else {
        decimal(n / 10).push(digit_char((n % 10) as int))
    }
}

/// `n` in decimal notation, with a minus sign where it is negative.
pub open spec fn signed_decimal(n: int) -> Seq<char> {
    if n < 0 {
        seq!['-'] + decimal((-n) as nat)
    } else {
        decimal(n as nat)
    }
}

/// The lower case hexadecimal digit of `d`.
pub open spec fn hex_char(d: int) -> char {
    if d < 10 {
        (48 + d) as char
    } else {
        (87 + d) as char
    }
}

/// The last `w` hexadecimal digits of `n`, with zeros in front where `n` has fewer.
pub open spec fn hex(n: nat, w: nat) -> Seq<char>
    decreases w,
{
    if w == 0 {
        seq![]
    } else {
        hex(n / 16, (w - 1) as nat).push(hex_char((n % 16) as int))
    }
}

/// The texts `parts` one after the other, with `sep` between them.
pub open spec fn joined(parts: Seq<Seq<char>>, sep: Seq<char>) -> Seq<char>
    decreases parts.len(),
{
    if parts.len() == 0 {
        seq![]
    } else if parts.len() == 1 {
        parts[0]
    } else {
        joined(parts.drop_last(), sep) + sep + parts.last()
    }
}

/// `a` comes before `b` in the order of code points.
pub open spec fn text_less(a: Seq<char>, b: Seq<char>) -> bool
    decreases b.len(),
{
    if b.len() == 0 {
        false
    } else if a.len() == 0 {
        true
    } else if a[0] != b[0] {
        a[0] < b[0]
    } else {
        text_less(a.skip(1), b.skip(1))
    }
}

/// The first `n` characters of `s`, or all of it where it is shorter.
pub open spec fn first_chars(s: Seq<char>, n: int) -> Seq<char> {
    if n < s.len() {
        s.take(n)
    } else {
        s
    }
}

/// The pieces of `s` between the characters `c`.
pub open spec fn pieces(s: Seq<char>, c: char) -> Seq<Seq<char>>
    decreases s.len(),
{
    if s.len() == 0 {
        seq![Seq::<char>::empty()]
    } else {
        let front = pieces(s.drop_last(), c);
        if s.last() == c {
            front.push(Seq::<char>::empty())
        } else {
            front.drop_last().push(front.last().push(s.last()))
        }
    }
}

/// A line without the carriage return at its end.
pub open spec fn without_cr(s: Seq<char>) -> Seq<char> {
    if s.len() > 0 && s.last() == '\r' {
        s.drop_last()
    } else {
        s
    }
}

/// The lines of `s`, without the characters that end them.
pub open spec fn lines_of(s: Seq<char>) -> Seq<Seq<char>> {
    let p = pieces(s, '\n');
    let ended = p.drop_last().map_values(|l: Seq<char>| without_cr(l));
    if p.last().len() > 0 {
        ended.push(p.last())
    } else {
        ended
    }
}

/// Where the word ends that stands at position `i`.
pub open spec fn word_end(s: Seq<char>, i: int) -> int
    decreases s.len() - i,
{
    if i < 0 || i >= s.len() || is_space(s[i]) {
        i
    } else {
        word_end(s, i + 1)
    }
}

proof fn word_end_is(s: Seq<char>, i: int, n: int)
    requires
        0 <= i <= n <= s.len(),
        forall|j: int| i <= j < n ==> !is_space(#[trigger] s[j]),
        n < s.len() ==> is_space(s[n]),
    ensures
        word_end(s, i) == n,
    decreases n - i,
{
    if i < n {
        assert(!is_space(s[i]));
        word_end_is(s, i + 1, n);
    }
}

/// A word ends within the text.
pub proof fn word_end_bounds(s: Seq<char>, i: int)
    requires
        0 <= i <= s.len(),
    ensures
        i <= word_end(s, i) <= s.len(),
    decreases s.len() - i,
{
    if i < s.len() && !is_space(s[i]) {
        word_end_bounds(s, i + 1);
    }
}

/// What stands between white space, from position `i` on.
pub open spec fn words_from(s: Seq<char>, i: int) -> Seq<Seq<char>>
    decreases s.len() - i,
{
    if i < 0 || i >= s.len() {
        seq![]
    } else if is_space(s[i]) {
        words_from(s, i + 1)
    } else {
        proof {
            word_end_bounds(s, i + 1);
        }
        seq![s.subrange(i, word_end(s, i))] + words_from(s, word_end(s, i))
    }
}

/// What stands between white space.
pub open spec fn words(s: Seq<char>) -> Seq<Seq<char>> {
    words_from(s, 0)
}

/// What follows `p` in `s`, where `s` begins with `p`.
pub open spec fn after_prefix(s: Seq<char>, p: Seq<char>) -> Option<Seq<char>> {
    if begins_with(s, p) {
        Some(s.skip(p.len() as int))
    } else {
        None
    }
}

/// The first position of `p` in `s`, or `-1`.
pub open spec fn first_at(s: Seq<char>, p: Seq<char>) -> int {
    if has_text(s, p) {
        choose|i: int| occurs_at(s, p, i) && forall|j: int| 0 <= j < i ==> !occurs_at(s, p, j)
    } else {
        -1
    }
}

// ---------------------------------------------------------------------------
// Conversion between strings and character vectors
// ---------------------------------------------------------------------------

/// The characters of `s`.
pub fn chars_of(s: &str) -> (v: Vec<char>)
    ensures
        v@ == s@,
{
    let mut v: Vec<char> = Vec::new();
    for c in it: s.chars()
        invariant
            v@ == s@.take(it.index() as int),
            it.seq() == s@,
    {
        v.push(c);
        assert(s@.take(it.index() + 1) =~= s@.take(it.index() as int).push(c));
    }
    assert(s@.take(s@.len() as int) =~= s@);
    v
}

/// The string of the characters `v[from..to]`.
pub fn string_of(v: &Vec<char>, from: usize, to: usize) -> (s: String)
    requires
        from <= to <= v@.len(),
    ensures
        s@ == v@.subrange(from as int, to as int),
{
    let mut s = String::new();
    let mut i: usize = from;
    while i < to
        invariant
            from <= i <= to <= v@.len(),
            s@ == v@.subrange(from as int, i as int),
        decreases to - i,
    {
        s.push(v[i]);
        i += 1;
        assert(v@.subrange(from as int, i as int) =~= v@.subrange(from as int, i - 1).push(v@[i - 1]));
    }
    s
}

/// A string that holds the same characters as `s`.
pub fn copy_str(s: &str) -> (r: String)
    ensures
        r@ == s@,
{
    s.to_owned()
}

/// Whether `a` and `b` hold the same characters.
pub fn same_text(a: &str, b: &str) -> (r: bool)
    ensures
        r == (a@ == b@),
{
    *a == *b
}

/// The strings of `v`, copied.
pub fn copy_strings(v: &Vec<String>) -> (r: Vec<String>)
    ensures
        r@ == v@,
{
    let mut r: Vec<String> = Vec::new();
    for i in 0..v.len()
        invariant
            r@ == v@.take(i as int),
    {
        r.push(v[i].clone());
        assert(v@.take(i + 1) =~= v@.take(i as int).push(v@[i as int]));
    }
    assert(v@.take(v@.len() as int) =~= v@);
    r
}

// ---------------------------------------------------------------------------
// Searching
// ---------------------------------------------------------------------------

/// Whether `p` stands in `s` at position `i`.
pub fn matches_at(s: &Vec<char>, p: &Vec<char>, i: usize) -> (r: bool)
    ensures
        r == occurs_at(s@, p@, i as int),
{
    let n: usize = s.len();
    if i > n || p.len() > n - i {
        return false;
    }
    let mut k: usize = 0;
    while k < p.len()
        invariant
            0 <= k <= p@.len(),
            n == s@.len(),
            i + p@.len() <= n,
            forall|j: int| 0 <= j < k ==> s@[i + j] == p@[j],
        decreases p@.len() - k,
    {
        if s[i + k] != p[k] {
            assert(s@.subrange(i as int, i + p@.len())[k as int] != p@[k as int]);
            return false;
        }
        k += 1;
    }
    assert(s@.subrange(i as int, i + p@.len()) =~= p@);
    true
}

/// The first position at or after `from` where `p` stands in `s`.
pub fn find_from(s: &Vec<char>, p: &Vec<char>, from: usize) -> (r: Option<usize>)
    ensures
        match r {
            Some(i) => from <= i && occurs_at(s@, p@, i as int) && forall|j: int|
                from <= j < i ==> !occurs_at(s@, p@, j),
            None => forall|j: int| from <= j ==> !occurs_at(s@, p@, j),
        },
{
    let mut i: usize = from;
    while i <= s.len()
        invariant
            from <= i,
            i <= s@.len() + 1 || i == from,
            forall|j: int| from <= j < i ==> !occurs_at(s@, p@, j),
        decreases s@.len() + 1 - i,
    {
        if matches_at(s, p, i) {
            return Some(i);
        }
        if i == usize::MAX {
            return None;
        }
        i += 1;
    }
    None
}

/// Whether `p` stands somewhere in `s`.
pub fn contains_text(s: &str, p: &str) -> (r: bool)
    ensures
        r == has_text(s@, p@),
{
    let sv = chars_of(s);
    let pv = chars_of(p);
    match find_from(&sv, &pv, 0) {
        Some(i) => {
            assert(occurs_at(s@, p@, i as int));
            true
        },
        None => {
            assert(forall|j: int| occurs_at(s@, p@, j) ==> 0 <= j);
            false
        },
    }
}

/// Whether one of the texts `ps` stands in `s`.
pub fn contains_any(s: &str, ps: &Vec<String>) -> (r: bool)
    ensures
        r == has_any(s@, texts(ps@)),
{
    for k in 0..ps.len()
        invariant
            forall|j: int| 0 <= j < k ==> !has_text(s@, #[trigger] ps@[j]@),
    {
        if contains_text(s, ps[k].as_str()) {
            assert(texts(ps@)[k as int] == ps@[k as int]@);
            return true;
        }
    }
    assert forall|j: int| 0 <= j < texts(ps@).len() implies !has_text(s@, #[trigger] texts(ps@)[j]) by {
        assert(texts(ps@)[j] == ps@[j]@);
    }
    false
}

/// Whether `s` begins with `p`.
pub fn starts_with(s: &str, p: &str) -> (r: bool)
    ensures
        r == begins_with(s@, p@),
{
    let sv = chars_of(s);
    let pv = chars_of(p);
    let r = matches_at(&sv, &pv, 0);
    assert(p@.len() <= s@.len() ==> s@.subrange(0, 0int + p@.len()) =~= s@.take(p@.len() as int));
    r
}

/// Whether `s` ends with `p`.
pub fn ends_with(s: &str, p: &str) -> (r: bool)
    ensures
        r == finishes_with(s@, p@),
{
    let sv = chars_of(s);
    let pv = chars_of(p);
    if pv.len() > sv.len() {
        return false;
    }
    let at: usize = sv.len() - pv.len();
    assert(s@.subrange(at as int, at + p@.len()) =~= s@.skip(s@.len() - p@.len()));
    matches_at(&sv, &pv, at)
}

/// Whether `v` holds the string `s`.
pub fn contains_string(v: &Vec<String>, s: &str) -> (r: bool)
    ensures
        r == texts(v@).contains(s@),
{
    for i in 0..v.len()
        invariant
            forall|j: int| 0 <= j < i ==> #[trigger] v@[j]@ != s@,
    {
        if same_text(v[i].as_str(), s) {
            assert(texts(v@)[i as int] == s@);
            return true;
        }
    }
    assert forall|j: int| 0 <= j < texts(v@).len() implies #[trigger] texts(v@)[j] != s@ by {
        assert(texts(v@)[j] == v@[j]@);
    }
    false
}

// ---------------------------------------------------------------------------
// White space
// ---------------------------------------------------------------------------

/// Whether `c` is a white space character.
pub fn char_is_space(c: char) -> (r: bool)
    ensures
        r == is_space(c),
{
    let n: u32 = c as u32;
    (0x09 <= n && n <= 0x0d) || n == 0x20 || n == 0x85 || n == 0xa0 || n == 0x1680 || (0x2000 <= n
        && n <= 0x200a) || n == 0x2028 || n == 0x2029 || n == 0x202f || n == 0x205f || n == 0x3000
}

/// Where the text of `v[from..to]` starts and ends once the white space at both
/// ends is left out.
pub fn trim_bounds(v: &Vec<char>, from: usize, to: usize) -> (r: (usize, usize))
    requires
        from <= to <= v@.len(),
    ensures
        from <= r.0 <= r.1 <= to,
        v@.subrange(r.0 as int, r.1 as int) == trimmed(v@.subrange(from as int, to as int)),
{
    let mut a: usize = from;
    while a < to && char_is_space(v[a])
        invariant
            from <= a <= to <= v@.len(),
            trimmed_start(v@.subrange(from as int, to as int)) == trimmed_start(
                v@.subrange(a as int, to as int),
            ),
        decreases to - a,
    {
        assert(v@.subrange(a as int, to as int).skip(1) =~= v@.subrange(a + 1, to as int));
        a += 1;
    }
    assert(trimmed_start(v@.subrange(a as int, to as int)) == v@.subrange(a as int, to as int));
    let mut b: usize = to;
    while b > a && char_is_space(v[b - 1])
        invariant
            from <= a <= b <= to <= v@.len(),
            trimmed_end(v@.subrange(a as int, to as int)) == trimmed_end(
                v@.subrange(a as int, b as int),
            ),
        decreases b - a,
    {
        assert(v@.subrange(a as int, b as int).drop_last() =~= v@.subrange(a as int, b - 1));
        b -= 1;
    }
    assert(trimmed_end(v@.subrange(a as int, b as int)) == v@.subrange(a as int, b as int));
    (a, b)
}

/// `s` without the white space at both ends.
pub fn trim(s: &str) -> (r: String)
    ensures
        r@ == trimmed(s@),
{
    let v = chars_of(s);
    let b = trim_bounds(&v, 0, v.len());
    assert(v@.subrange(0, v@.len() as int) =~= s@);
    string_of(&v, b.0, b.1)
}

/// Nothing is left of a text exactly when it holds nothing but white space.
pub proof fn blank_iff_trimmed_empty(s: Seq<char>)
    ensures
        is_blank(s) <==> trimmed(s).len() == 0,
    decreases s.len(),
{
    blank_iff_start(s);
    blank_iff_end(trimmed_start(s));
    trimmed_start_suffix(s);
}

proof fn trimmed_start_suffix(s: Seq<char>)
    ensures
        is_blank(trimmed_start(s)) <==> is_blank(s),
    decreases s.len(),
{
    if s.len() > 0 && is_space(s[0]) {
        trimmed_start_suffix(s.skip(1));
        assert(forall|i: int| 0 <= i < s.skip(1).len() ==> s.skip(1)[i] == s[i + 1]);
        if is_blank(s.skip(1)) {
            assert forall|i: int| 0 <= i < s.len() implies is_space(#[trigger] s[i]) by {
                if i > 0 {
                    assert(s.skip(1)[i - 1] == s[i]);
                }
            }
        }
        if is_blank(s) {
            assert forall|i: int| 0 <= i < s.skip(1).len() implies is_space(#[trigger] s.skip(1)[i]) by {
                assert(is_space(s[i + 1]));
            }
        }
    }
}

proof fn blank_iff_start(s: Seq<char>)
    ensures
        is_blank(s) <==> trimmed_start(s).len() == 0,
    decreases s.len(),
{
    trimmed_start_suffix(s);
    if s.len() > 0 {
        if is_space(s[0]) {
            blank_iff_start(s.skip(1));
            assert(forall|i: int| 0 <= i < s.skip(1).len() ==> s.skip(1)[i] == s[i + 1]);
            trimmed_start_suffix(s.skip(1));
        } else {
            assert(!is_blank(s));
        }
    }
}

proof fn blank_iff_end(s: Seq<char>)
    ensures
        is_blank(s) <==> trimmed_end(s).len() == 0,
    decreases s.len(),
{
    if s.len() > 0 {
        if is_space(s.last()) {
            blank_iff_end(s.drop_last());
            assert(is_blank(s.drop_last()) ==> is_blank(s)) by {
                assert(forall|i: int| 0 <= i < s.drop_last().len() ==> s.drop_last()[i] == s[i]);
            }
        } else {
            assert(!is_blank(s)) by {
                assert(!is_space(s[s.len() - 1]));
            }
        }
    }
}

/// Whether nothing is left of `s` once the white space is left out.
pub fn blank(s: &str) -> (r: bool)
    ensures
        r == (trimmed(s@).len() == 0),
        r == is_blank(s@),
{
    proof {
        blank_iff_trimmed_empty(s@);
    }
    let v = chars_of(s);
    for i in 0..v.len()
        invariant
            v@ == s@,
            is_blank(s@) <==> trimmed(s@).len() == 0,
            forall|j: int| 0 <= j < i ==> is_space(#[trigger] v@[j]),
    {
        if !char_is_space(v[i]) {
            assert(!is_space(s@[i as int]));
            return false;
        }
    }
    assert(is_blank(s@));
    true
}

// ---------------------------------------------------------------------------
// Case, digits, joining, order
// ---------------------------------------------------------------------------

/// The lower case of an ASCII letter; every other character itself.
pub fn char_lower(c: char) -> (r: char)
    ensures
        r == lower_char(c),
{
    if 'A' <= c && c <= 'Z' {
        let n: u8 = c as u8;
        (n + 32) as char
    } else {
        c
    }
}

/// `s` with its ASCII letters in lower case.
pub fn to_ascii_lower(s: &str) -> (r: String)
    ensures
        r@ == ascii_lower(s@),
{
    let v = chars_of(s);
    let mut r = String::new();
    for i in 0..v.len()
        invariant
            v@ == s@,
            r@ == ascii_lower(s@.take(i as int)),
    {
        r.push(char_lower(v[i]));
        assert(ascii_lower(s@.take(i + 1)) =~= ascii_lower(s@.take(i as int)).push(
            lower_char(s@[i as int]),
        ));
    }
    assert(s@.take(s@.len() as int) =~= s@);
    r
}

/// `n` in decimal notation.
pub fn decimal_text(n: u64) -> (r: String)
    ensures
        r@ == decimal(n as nat),
    decreases n,
{
    let d: u8 = (n % 10) as u8;
    let c: char = (48 + d) as char;
    if n < 10 {
        let mut r = String::new();
        r.push(c);
        assert(r@ =~= seq![digit_char(n as int)]);
        r
    } else {
        let mut r = decimal_text(n / 10);
        r.push(c);
        r
    }
}

/// `n` in decimal notation, with a minus sign where it is negative.
pub fn signed_decimal_text(n: i64) -> (r: String)
    ensures
        r@ == signed_decimal(n as int),
{
    if n < 0 {
        let mut r = String::new();
        r.push('-');
        let magnitude: u64 = (-(n as i128)) as u64;
        let digits = decimal_text(magnitude);
        r.append(digits.as_str());
        assert(r@ =~= seq!['-'] + decimal((-n) as nat));
        r
    } else {
        decimal_text(n as u64)
    }
}

/// The last `w` hexadecimal digits of `n`.
pub fn hex_text(n: u64, w: usize) -> (r: String)
    ensures
        r@ == hex(n as nat, w as nat),
    decreases w,
{
    if w == 0 {
        String::new()
    } else {
        let d: u8 = (n % 16) as u8;
        let c: char = if d < 10 {
            (48 + d) as char
        } else {
            (87 + d) as char
        };
        let mut r = hex_text(n / 16, w - 1);
        r.push(c);
        r
    }
}

/// The strings of `parts` one after the other, with `sep` between them.
pub fn join(parts: &Vec<String>, sep: &str) -> (r: String)
    ensures
        r@ == joined(texts(parts@), sep@),
{
    let mut r = String::new();
    let ghost all = texts(parts@);
    for i in 0..parts.len()
        invariant
            all == texts(parts@),
            r@ == joined(all.take(i as int), sep@),
    {
        assert(all[i as int] == parts@[i as int]@);
        assert(all.take(i + 1).drop_last() =~= all.take(i as int));
        if i > 0 {
            r.append(sep);
        } else {
            assert(all.take(1)[0] == parts@[0]@);
        }
        r.append(parts[i].as_str());
        assert(r@ =~= joined(all.take(i + 1), sep@));
    }
    assert(all.take(all.len() as int) =~= all);
    r
}

/// Whether `a` comes before `b` in the order of code points, which is also the
/// order of the bytes of their UTF-8 forms.
pub fn less_text(a: &str, b: &str) -> (r: bool)
    ensures
        r == text_less(a@, b@),
{
    let av = chars_of(a);
    let bv = chars_of(b);
    let mut i: usize = 0;
    assert(a@.skip(0) =~= a@ && b@.skip(0) =~= b@);
    while i < av.len() && i < bv.len() && av[i] == bv[i]
        invariant
            av@ == a@,
            bv@ == b@,
            i <= a@.len(),
            i <= b@.len(),
            text_less(a@, b@) == text_less(a@.skip(i as int), b@.skip(i as int)),
        decreases a@.len() - i,
    {
        assert(a@.skip(i as int).skip(1) =~= a@.skip(i + 1));
        assert(b@.skip(i as int).skip(1) =~= b@.skip(i + 1));
        i += 1;
    }
    if i >= bv.len() {
        false
    } else if i >= av.len() {
        true
    } else {
        av[i] < bv[i]
    }
}

/// The order of code points is irreflexive, transitive and total.
pub proof fn text_order(a: Seq<char>, b: Seq<char>, c: Seq<char>)
    ensures
        !text_less(a, a),
        text_less(a, b) && text_less(b, c) ==> text_less(a, c),
        text_less(a, b) || text_less(b, a) || a == b,
        !(text_less(a, b) && text_less(b, a)),
    decreases a.len() + b.len() + c.len(),
{
    if a.len() > 0 && b.len() > 0 && c.len() > 0 {
        text_order(a.skip(1), b.skip(1), c.skip(1));
    } else if a.len() > 0 && b.len() > 0 {
        text_order(a.skip(1), b.skip(1), c);
    } else if a.len() > 0 {
        text_order(a.skip(1), b, c);
    }
    if a.len() > 0 && b.len() > 0 && a[0] == b[0] && a.skip(1) == b.skip(1) {
        assert(a =~= seq![a[0]] + a.skip(1));
        assert(b =~= seq![b[0]] + b.skip(1));
    }
    if a.len() == 0 && b.len() == 0 {
        assert(a =~= b);
    }
}

/// The first `n` characters of `s`.
pub fn take_chars(s: &str, n: usize) -> (r: String)
    ensures
        r@ == first_chars(s@, n as int),
{
    let v = chars_of(s);
    if n < v.len() {
        assert(s@.subrange(0, n as int) =~= s@.take(n as int));
        string_of(&v, 0, n)
    } else {
        copy_str(s)
    }
}

// ---------------------------------------------------------------------------
// Pieces and lines
// ---------------------------------------------------------------------------

/// There is always a piece, if only an empty one.
pub proof fn pieces_not_empty(s: Seq<char>, c: char)
    ensures
        pieces(s, c).len() > 0,
    decreases s.len(),
{
    if s.len() > 0 {
        pieces_not_empty(s.drop_last(), c);
    }
}

/// The pieces of `s` between the characters `c`.
pub fn split_char(s: &str, c: char) -> (r: Vec<String>)
    ensures
        texts(r@) == pieces(s@, c),
        r@.len() > 0,
{
    let v = chars_of(s);
    let mut done: Vec<String> = Vec::new();
    let mut cur = String::new();
    assert(texts(done@).push(cur@) =~= pieces(s@.take(0), c));
    for i in 0..v.len()
        invariant
            v@ == s@,
            texts(done@).push(cur@) == pieces(s@.take(i as int), c),
    {
        let ghost before = pieces(s@.take(i as int), c);
        proof {
            assert(s@.take(i + 1).drop_last() =~= s@.take(i as int));
            assert(s@.take(i + 1).last() == s@[i as int]);
            assert(before.last() == cur@);
            assert(before.drop_last() =~= texts(done@));
        }
        if v[i] == c {
            let ghost done0 = done@;
            let ghost cur0 = cur@;
            done.push(cur);
            cur = String::new();
            assert(texts(done@) =~= texts(done0).push(cur0));
        } else {
            cur.push(v[i]);
        }
    }
    assert(s@.take(s@.len() as int) =~= s@);
    let ghost done0 = done@;
    let ghost cur0 = cur@;
    done.push(cur);
    assert(texts(done@) =~= texts(done0).push(cur0));
    done
}

fn strip_cr(s: &String) -> (r: String)
    ensures
        r@ == without_cr(s@),
{
    let v = chars_of(s.as_str());
    if v.len() > 0 && v[v.len() - 1] == '\r' {
        assert(v@.subrange(0, v@.len() - 1) =~= s@.drop_last());
        string_of(&v, 0, v.len() - 1)
    } else {
        s.clone()
    }
}

/// The lines of `s`.
pub fn split_lines(s: &str) -> (r: Vec<String>)
    ensures
        texts(r@) == lines_of(s@),
{
    let parts = split_char(s, '\n');
    let ghost p = pieces(s@, '\n');
    let mut r: Vec<String> = Vec::new();
    let n: usize = parts.len();
    for i in 0..n - 1
        invariant
            texts(parts@) == p,
            n == p.len(),
            n > 0,
            r@.len() == i,
            forall|j: int| 0 <= j < i ==> #[trigger] r@[j]@ == without_cr(p[j]),
    {
        assert(texts(parts@)[i as int] == parts@[i as int]@);
        r.push(strip_cr(&parts[i]));
    }
    let ghost ended = p.drop_last().map_values(|l: Seq<char>| without_cr(l));
    assert(texts(r@) =~= ended);
    assert(texts(parts@)[n - 1] == parts@[n - 1]@);
    if !parts[n - 1].as_str().is_empty() {
        let ghost r0 = r@;
        r.push(parts[n - 1].clone());
        assert(texts(r@) =~= texts(r0).push(p.last()));
    }
    r
}

/// `s` without the white space at its start.
pub fn trim_start(s: &str) -> (r: String)
    ensures
        r@ == trimmed_start(s@),
{
    let v = chars_of(s);
    let mut a: usize = 0;
    assert(v@.skip(0) =~= s@);
    while a < v.len() && char_is_space(v[a])
        invariant
            a <= v@.len(),
            v@ == s@,
            trimmed_start(s@) == trimmed_start(v@.skip(a as int)),
        decreases v@.len() - a,
    {
        assert(v@.skip(a as int).skip(1) =~= v@.skip(a + 1));
        a += 1;
    }
    assert(v@.subrange(a as int, v@.len() as int) =~= v@.skip(a as int));
    string_of(&v, a, v.len())
}

/// What follows `p` in `s`, where `s` begins with `p`.
pub fn strip_prefix(s: &str, p: &str) -> (r: Option<String>)
    ensures
        match r {
            Some(t) => after_prefix(s@, p@) == Some(t@),
            None => after_prefix(s@, p@) is None,
        },
{
    if starts_with(s, p) {
        let v = chars_of(s);
        let n: usize = chars_of(p).len();
        assert(v@.subrange(n as int, v@.len() as int) =~= s@.skip(p@.len() as int));
        Some(string_of(&v, n, v.len()))
    } else {
        None
    }
}

/// The first position where `p` stands in `s`.
pub fn find_text(s: &str, p: &str) -> (r: Option<usize>)
    ensures
        match r {
            Some(i) => first_at(s@, p@) == i && occurs_at(s@, p@, i as int) && has_text(s@, p@),
            None => first_at(s@, p@) == -1 && !has_text(s@, p@),
        },
{
    let sv = chars_of(s);
    let pv = chars_of(p);
    let r = find_from(&sv, &pv, 0);
    proof {
        match r {
            Some(i) => {
                assert(occurs_at(s@, p@, i as int));
                let j = first_at(s@, p@);
                assert(occurs_at(s@, p@, j) && forall|l: int| 0 <= l < j ==> !occurs_at(s@, p@, l));
                assert(i == j);
            },
            None => {
                assert(forall|j: int| occurs_at(s@, p@, j) ==> 0 <= j);
            },
        }
    }
    r
}

/// The characters of `s` from position `from` up to position `to`.
pub fn slice(s: &str, from: usize, to: usize) -> (r: String)
    requires
        from <= to <= s@.len(),
    ensures
        r@ == s@.subrange(from as int, to as int),
{
    let v = chars_of(s);
    string_of(&v, from, to)
}

/// What stands between white space.
pub fn split_words(s: &str) -> (r: Vec<String>)
    ensures
        texts(r@) == words(s@),
{
    let v = chars_of(s);
    let mut r: Vec<String> = Vec::new();
    let mut i: usize = 0;
    assert(texts(r@) + words(s@) =~= words(s@));
    while i < v.len()
        invariant
            v@ == s@,
            i <= v@.len(),
            texts(r@) + words_from(s@, i as int) == words(s@),
        decreases v@.len() - i,
    {
        if char_is_space(v[i]) {
            i += 1;
        } else {
            let mut j: usize = i;
            while j < v.len() && !char_is_space(v[j])
                invariant
                    v@ == s@,
                    i <= j <= v@.len(),
                    forall|l: int| i <= l < j ==> !is_space(#[trigger] s@[l]),
                decreases v@.len() - j,
            {
                j += 1;
            }
            proof {
                word_end_is(s@, i as int, j as int);
            }
            let word = string_of(&v, i, j);
            let ghost before = texts(r@);
            let ghost w = word@;
            r.push(word);
            proof {
                assert(texts(r@) =~= before.push(w));
                assert(words_from(s@, i as int) == seq![w] + words_from(s@, j as int));
                assert(before.push(w) + words_from(s@, j as int) =~= before + (seq![w] + words_from(s@, j as int)));
            }
            i = j;
        }
    }
    assert(texts(r@) + words_from(s@, i as int) =~= texts(r@));
    r
}

/// The text without the words `p` at its start.
pub open spec fn without_words(s: Seq<char>, p: Seq<char>) -> Seq<char>
    decreases s.len(),
{
    if p.len() > 0 && begins_with(s, p) {
        without_words(s.skip(p.len() as int), p)
    } else {
        s
    }
}

/// The text without the words `p` at its start.
pub fn remove_words(s: &str, p: &str) -> (r: String)
    ensures
        r@ == without_words(s@, p@),
{
    let mut rest = copy_str(s);
    if p.is_empty() {
        return rest;
    }
    while starts_with(rest.as_str(), p)
        invariant
            p@.len() > 0,
            without_words(s@, p@) == without_words(rest@, p@),
        decreases rest@.len(),
    {
        match strip_prefix(rest.as_str(), p) {
            Some(t) => {
                rest = t;
            },
            None => {
                return rest;
            },
        }
    }
    rest
}

/// `s` with every backslash turned into a slash.
pub open spec fn slashed(s: Seq<char>) -> Seq<char> {
    s.map_values(
        |c: char|
            if c == '\\' {
                '/'
            } else {
                c
            },
    )
}

/// `s` without the characters `c` at its start.
pub open spec fn without_leading(s: Seq<char>, c: char) -> Seq<char>
    decreases s.len(),
{
    if s.len() > 0 && s[0] == c {
        without_leading(s.skip(1), c)
    } else {
        s
    }
}

/// `s` with every backslash turned into a slash.
pub fn to_slashes(s: &str) -> (r: String)
    ensures
        r@ == slashed(s@),
{
    let v = chars_of(s);
    let mut r = String::new();
    for i in 0..v.len()
        invariant
            v@ == s@,
            r@ == slashed(s@.take(i as int)),
    {
        let c: char = if v[i] == '\\' {
            '/'
        } else {
            v[i]
        };
        r.push(c);
        assert(slashed(s@.take(i + 1)) =~= slashed(s@.take(i as int)).push(c));
    }
    assert(s@.take(s@.len() as int) =~= s@);
    r
}

/// `s` without the characters `c` at its start.
pub fn trim_leading(s: &str, c: char) -> (r: String)
    ensures
        r@ == without_leading(s@, c),
{
    let v = chars_of(s);
    let mut a: usize = 0;
    assert(v@.skip(0) =~= s@);
    while a < v.len() && v[a] == c
        invariant
            a <= v@.len(),
            v@ == s@,
            without_leading(s@, c) == without_leading(v@.skip(a as int), c),
        decreases v@.len() - a,
    {
        assert(v@.skip(a as int).skip(1) =~= v@.skip(a + 1));
        a += 1;
    }
    assert(v@.subrange(a as int, v@.len() as int) =~= v@.skip(a as int));
    string_of(&v, a, v.len())
}

/// What stands before `p` in `s`, where `s` ends with `p`.
pub open spec fn before_suffix(s: Seq<char>, p: Seq<char>) -> Option<Seq<char>> {
    if finishes_with(s, p) {
        Some(s.take(s.len() - p.len()))
    } else {
        None
    }
}

/// What stands before `p` in `s`, where `s` ends with `p`.
pub fn strip_suffix(s: &str, p: &str) -> (r: Option<String>)
    ensures
        match r {
            Some(t) => before_suffix(s@, p@) == Some(t@),
            None => before_suffix(s@, p@) is None,
        },
{
    if ends_with(s, p) {
        let v = chars_of(s);
        let n: usize = v.len() - chars_of(p).len();
        assert(v@.subrange(0, n as int) =~= s@.take(s@.len() - p@.len()));
        Some(string_of(&v, 0, n))
    } else {
        None
    }
}

// ---------------------------------------------------------------------------
// Sorting
// ---------------------------------------------------------------------------

/// The texts stand in the order of code points.
pub open spec fn in_order(v: Seq<Seq<char>>) -> bool {
    forall|i: int, j: int| 0 <= i < j < v.len() ==> !text_less(#[trigger] v[j], #[trigger] v[i])
}

/// Sorts strings by the order of code points.
pub fn sort_strings(v: Vec<String>) -> (r: Vec<String>)
    ensures
        in_order(texts(r@)),
        texts(r@).to_multiset() == texts(v@).to_multiset(),
        r@.len() == v@.len(),
{
    let ghost all = texts(v@);
    let mut rest = v;
    let mut r: Vec<String> = Vec::new();
    proof {
        texts(r@).to_multiset_ensures();
        assert(texts(r@).to_multiset().add(texts(rest@).to_multiset()) =~= all.to_multiset());
    }
    while rest.len() > 0
        invariant
            in_order(texts(r@)),
            r@.len() + rest@.len() == all.len(),
            texts(r@).to_multiset().add(texts(rest@).to_multiset()) == all.to_multiset(),
        decreases rest@.len(),
    {
        let ghost rest0 = texts(rest@);
        let x = rest.remove(rest.len() - 1);
        let ghost xs = x@;
        let ghost r0 = texts(r@);
        let mut i: usize = r.len();
        while i > 0 && less_text(x.as_str(), r[i - 1].as_str())
            invariant
                i <= r@.len(),
                texts(r@) == r0,
                xs == x@,
                forall|j: int| i <= j < r0.len() ==> text_less(xs, #[trigger] r0[j]),
            decreases i,
        {
            assert(texts(r@)[i - 1] == r@[i - 1]@);
            i -= 1;
        }
        r.insert(i, x);
        proof {
            assert(texts(r@) =~= r0.insert(i as int, xs));
            assert(texts(rest@) =~= rest0.remove(rest0.len() - 1));
            r0.to_multiset_ensures();
            rest0.to_multiset_ensures();
            assert(rest0[rest0.len() - 1] == xs);
            r0.insert(i as int, xs).to_multiset_ensures();
            insert_multiset(r0, i as int, xs);
            assert(rest0.to_multiset().count(xs) > 0) by {
                assert(rest0.contains(xs));
            }
            assert(texts(r@).to_multiset().add(texts(rest@).to_multiset()) =~= r0.to_multiset().add(rest0.to_multiset()));
            let after = texts(r@);
            assert forall|a: int, b: int| 0 <= a < b < after.len() implies !text_less(#[trigger] after[b], #[trigger] after[a]) by {
                let a2 = if a < i { a } else { a - 1 };
                let b2 = if b < i { b } else { b - 1 };
                if a == i {
                    assert(after[b] == r0[b2]);
                    text_order(xs, r0[b2], xs);
                } else if b == i {
                    assert(after[a] == r0[a2]);
                    if a2 < i - 1 {
                        assert(!text_less(r0[i - 1], r0[a2]));
                    }
                    text_order(xs, r0[a2], r0[i - 1]);
                    text_order(r0[a2], r0[i - 1], xs);
                    text_order(r0[i - 1], xs, r0[a2]);
                } else {
                    assert(after[a] == r0[a2] && after[b] == r0[b2]);
                }
            }
        }
    }
    proof {
        assert(texts(rest@) =~= Seq::<Seq<char>>::empty());
        texts(rest@).to_multiset_ensures();
        assert(texts(r@).to_multiset() =~= all.to_multiset());
    }
    r
}

proof fn insert_multiset(s: Seq<Seq<char>>, i: int, x: Seq<char>)
    requires
        0 <= i <= s.len(),
    ensures
        s.insert(i, x).to_multiset() == s.to_multiset().insert(x),
{
    let t = s.insert(i, x);
    t.to_multiset_ensures();
    assert(t.remove(i) =~= s);
    assert(t.to_multiset().remove(x) =~= s.to_multiset());
    assert(t[i] == x);
    assert(t.contains(x));
    assert(t.to_multiset().count(x) > 0);
    assert(t.to_multiset() =~= s.to_multiset().insert(x));
}

// ---------------------------------------------------------------------------
// Decimal notation
// ---------------------------------------------------------------------------

/// Different numbers have different decimal notations.
pub proof fn decimal_injective(a: nat, b: nat)
    requires
        decimal(a) == decimal(b),
    ensures
        a == b,
    decreases a,
{
    decimal_len(a);
    decimal_len(b);
    assert forall|d: int| 0 <= d < 10 implies (#[trigger] digit_char(d)) as int == 48 + d by {}
    if a < 10 && b < 10 {
        assert(decimal(a)[0] == digit_char(a as int));
        assert(decimal(b)[0] == digit_char(b as int));
    } else if a >= 10 && b >= 10 {
        assert(decimal(a).last() == digit_char((a % 10) as int));
        assert(decimal(b).last() == digit_char((b % 10) as int));
        assert(a % 10 == b % 10);
        assert(decimal(a).drop_last() =~= decimal(a / 10));
        assert(decimal(b).drop_last() =~= decimal(b / 10));
        decimal_injective(a / 10, b / 10);
    } else if a >= 10 {
        decimal_len(a / 10);
    } else {
        decimal_len(b / 10);
    }
}

proof fn decimal_len(n: nat)
    ensures
        decimal(n).len() >= 1,
        n >= 10 ==> decimal(n).len() == decimal(n / 10).len() + 1,
    decreases n,
{
    if n >= 10 {
        decimal_len(n / 10);
    }
}

/// A path below a root; one that starts at the top stays what it is.
pub open spec fn below(root: Seq<char>, path: Seq<char>) -> Seq<char> {
    if path.len() > 0 && path[0] == '/' {
        path
    } else if root.len() == 0 || root.last() == '/' {
        root + path
    } else {
        root + "/"@ + path
    }
}

/// The path of `path` below `root`.
pub fn join_below(root: &str, path: &str) -> (r: String)
    ensures
        r@ == below(root@, path@),
{
    let p = chars_of(path);
    if p.len() > 0 && p[0] == '/' {
        return copy_str(path);
    }
    let v = chars_of(root);
    let mut r = copy_str(root);
    if v.len() > 0 && v[v.len() - 1] != '/' {
        r.append("/");
    }
    r.append(path);
    r
}

// ---------------------------------------------------------------------------
// Laws
// ---------------------------------------------------------------------------

/// A text stands in another wherever the other has something before and behind it,
/// begins with what stands at its start and ends with what stands at its end; and
/// nothing else stands in it, begins it or ends it.
pub proof fn parts_stand_in_the_whole(a: Seq<char>, p: Seq<char>, b: Seq<char>, s: Seq<char>)
    ensures
        has_text(a + p + b, p),
        begins_with(p + b, p),
        finishes_with(a + p, p),
        after_prefix(p + b, p) == Some(b),
        before_suffix(a + p, p) == Some(a),
        has_text(s, p) ==> exists|x: Seq<char>, y: Seq<char>| s == #[trigger] (x + p + y),
        begins_with(s, p) ==> s == p + s.skip(p.len() as int),
        finishes_with(s, p) ==> s == s.take(s.len() - p.len()) + p,
{
    let w = a + p + b;
    assert(w.subrange(a.len() as int, (a.len() + p.len()) as int) =~= p);
    assert(occurs_at(w, p, a.len() as int));
    assert((p + b).take(p.len() as int) =~= p);
    assert((p + b).skip(p.len() as int) =~= b);
    assert((a + p).skip(a.len() as int) =~= p);
    assert((a + p).take(a.len() as int) =~= a);
    if has_text(s, p) {
        let i = choose|i: int| occurs_at(s, p, i);
        let x = s.take(i);
        let y = s.skip(i + p.len());
        assert(s =~= x + p + y) by {
            assert(s.subrange(i, i + p.len()) == p);
            assert forall|j: int| i <= j < i + p.len() implies s[j] == p[j - i] by {
                assert(s.subrange(i, i + p.len())[j - i] == s[j]);
            }
        }
    }
    if begins_with(s, p) {
        assert(s =~= s.take(p.len() as int) + s.skip(p.len() as int));
    }
    if finishes_with(s, p) {
        assert(s =~= s.take(s.len() - p.len()) + s.skip(s.len() - p.len()));
    }
}

/// The first position of a text is one where it stands, and it stands at none
/// before.
pub proof fn first_position_is_first(s: Seq<char>, p: Seq<char>, j: int)
    ensures
        has_text(s, p) ==> 0 <= first_at(s, p) <= s.len() - p.len() && s.subrange(
            first_at(s, p),
            first_at(s, p) + p.len(),
        ) == p,
        0 <= j < first_at(s, p) ==> s.subrange(j, j + p.len()) != p,
        !has_text(s, p) ==> first_at(s, p) < 0,
{
    if has_text(s, p) {
        let i = choose|i: int| occurs_at(s, p, i);
        earliest(s, p, i);
        let f = first_at(s, p);
        assert(occurs_at(s, p, f) && forall|l: int| 0 <= l < f ==> !occurs_at(s, p, l));
        if 0 <= j < f {
            assert(!occurs_at(s, p, j));
        }
    }
}

/// A position where a text stands, and before which it stands nowhere, is its first.
pub proof fn first_position_is(s: Seq<char>, p: Seq<char>, n: int)
    requires
        0 <= n <= s.len() - p.len(),
        s.subrange(n, n + p.len()) == p,
        forall|j: int| 0 <= j < n ==> s.subrange(j, #[trigger] (j + p.len())) != p,
    ensures
        first_at(s, p) == n,
{
    assert(occurs_at(s, p, n));
    first_position_is_first(s, p, n);
    let f = first_at(s, p);
    if f < n {
        assert(s.subrange(f, f + p.len()) != p);
    }
}

proof fn earliest(s: Seq<char>, p: Seq<char>, i: int)
    requires
        occurs_at(s, p, i),
    ensures
        exists|k: int| occurs_at(s, p, k) && forall|j: int| 0 <= j < k ==> !occurs_at(s, p, j),
    decreases i,
{
    if exists|j: int| 0 <= j < i && occurs_at(s, p, j) {
        let j = choose|j: int| 0 <= j < i && occurs_at(s, p, j);
        earliest(s, p, j);
    } else {
        assert(occurs_at(s, p, i) && forall|j: int| 0 <= j < i ==> !occurs_at(s, p, j));
    }
}

proof fn start_taken_off(s: Seq<char>) -> (n: int)
    ensures
        0 <= n <= s.len(),
        trimmed_start(s) == s.skip(n),
        forall|i: int| 0 <= i < n ==> is_space(#[trigger] s[i]),
        n < s.len() ==> !is_space(s[n]),
    decreases s.len(),
{
    if s.len() > 0 && is_space(s[0]) {
        let t = s.skip(1);
        let m = start_taken_off(t);
        assert(t.skip(m) =~= s.skip(m + 1));
        assert forall|i: int| 0 <= i < m + 1 implies is_space(#[trigger] s[i]) by {
            if i > 0 {
                assert(t[i - 1] == s[i]);
            }
        }
        m + 1
    } else {
        assert(s.skip(0) =~= s);
        0
    }
}

proof fn end_taken_off(s: Seq<char>) -> (n: int)
    ensures
        0 <= n <= s.len(),
        trimmed_end(s) == s.take(n),
        forall|i: int| n <= i < s.len() ==> is_space(#[trigger] s[i]),
        n > 0 ==> !is_space(s[n - 1]),
    decreases s.len(),
{
    if s.len() > 0 && is_space(s.last()) {
        let t = s.drop_last();
        let m = end_taken_off(t);
        assert(t.take(m) =~= s.take(m));
        assert forall|i: int| m <= i < s.len() implies is_space(#[trigger] s[i]) by {
            if i < t.len() {
                assert(t[i] == s[i]);
            }
        }
        m
    } else {
        assert(s.take(s.len() as int) =~= s);
        s.len() as int
    }
}

/// Trimming takes white space off both ends and nothing else: what is left has none
/// at its ends, and what was around it is white space.
pub proof fn trimming_takes_off_the_ends(s: Seq<char>)
    ensures
        exists|i: int, j: int|
            0 <= i <= j <= s.len() && trimmed(s) == #[trigger] s.subrange(i, j) && is_blank(s.subrange(0, i)) && is_blank(
                s.subrange(j, s.len() as int),
            ),
        trimmed(s).len() > 0 ==> !is_space(trimmed(s)[0]) && !is_space(trimmed(s).last()),
        trimmed(trimmed(s)) == trimmed(s),
{
    let i = start_taken_off(s);
    let t = trimmed_start(s);
    let n = end_taken_off(t);
    let j = i + n;
    assert(t.take(n) =~= s.subrange(i, j));
    assert forall|k: int| 0 <= k < s.subrange(0, i).len() implies is_space(#[trigger] s.subrange(0, i)[k]) by {
        assert(is_space(s[k]));
    }
    let tail = s.subrange(j, s.len() as int);
    assert forall|k: int| 0 <= k < tail.len() implies is_space(#[trigger] tail[k]) by {
        assert(is_space(t[n + k]));
    }
    let r = trimmed(s);
    if r.len() > 0 {
        assert(r[0] == s[i]);
        assert(r.last() == t[n - 1]);
    }
}

proof fn blank_start_goes(a: Seq<char>, s: Seq<char>)
    requires
        is_blank(a),
    ensures
        trimmed_start(a + s) == trimmed_start(s),
    decreases a.len(),
{
    if a.len() == 0 {
        assert(a + s =~= s);
    } else {
        assert(is_space(a[0]));
        assert((a + s).skip(1) =~= a.skip(1) + s);
        assert forall|i: int| 0 <= i < a.skip(1).len() implies is_space(#[trigger] a.skip(1)[i]) by {
            assert(is_space(a[i + 1]));
        }
        blank_start_goes(a.skip(1), s);
    }
}

proof fn blank_end_goes(s: Seq<char>, b: Seq<char>)
    requires
        is_blank(b),
    ensures
        trimmed_end(s + b) == trimmed_end(s),
    decreases b.len(),
{
    if b.len() == 0 {
        assert(s + b =~= s);
    } else {
        assert(is_space(b[b.len() - 1]));
        assert((s + b).last() == b.last());
        assert((s + b).drop_last() =~= s + b.drop_last());
        assert forall|i: int| 0 <= i < b.drop_last().len() implies is_space(#[trigger] b.drop_last()[i]) by {
            assert(is_space(b[i]));
        }
        blank_end_goes(s, b.drop_last());
    }
}

/// A text with no white space at its ends comes back out of whatever white space
/// is put around it.
pub proof fn trimming_undoes_padding(a: Seq<char>, s: Seq<char>, b: Seq<char>)
    requires
        is_blank(a),
        is_blank(b),
        s.len() > 0 ==> !is_space(s[0]) && !is_space(s.last()),
    ensures
        trimmed(a + s + b) == s,
{
    assert(a + s + b =~= a + (s + b));
    blank_start_goes(a, s + b);
    if s.len() == 0 {
        assert(s + b =~= b);
        let n = start_taken_off(b);
        if n < b.len() {
            assert(is_space(b[n]));
        }
        assert(b.skip(n) =~= s);
    } else {
        assert((s + b)[0] == s[0]);
        blank_end_goes(s, b);
    }
}

/// Texts put together in two goes are put together in one; one text is itself.
pub proof fn joining_in_two_goes(a: Seq<Seq<char>>, b: Seq<Seq<char>>, sep: Seq<char>)
    requires
        a.len() > 0,
        b.len() > 0,
    ensures
        joined(a + b, sep) == joined(a, sep) + sep + joined(b, sep),
        a.len() == 1 ==> joined(a, sep) == a[0],
    decreases b.len(),
{
    assert((a + b).drop_last() =~= a + b.drop_last());
    if b.len() == 1 {
        assert(a + b.drop_last() =~= a);
    } else {
        joining_in_two_goes(a, b.drop_last(), sep);
        assert(joined(a + b, sep) =~= joined(a, sep) + sep + joined(b, sep));
    }
}

/// Each of the texts that were put together stands in the whole.
pub proof fn joined_holds(v: Seq<Seq<char>>, sep: Seq<char>, k: int)
    requires
        0 <= k < v.len(),
    ensures
        has_text(joined(v, sep), v[k]),
    decreases v.len(),
{
    let all = joined(v, sep);
    if v.len() == 1 {
        assert(all.subrange(0, all.len() as int) =~= all);
        assert(occurs_at(all, v[k], 0));
    } else if k == v.len() - 1 {
        let at = all.len() - v[k].len();
        assert(all.subrange(at, at + v[k].len()) =~= v[k]);
        assert(occurs_at(all, v[k], at));
    } else {
        let front = joined(v.drop_last(), sep);
        joined_holds(v.drop_last(), sep, k);
        let i = choose|i: int| occurs_at(front, v.drop_last()[k], i);
        assert(all.subrange(i, i + v[k].len()) =~= front.subrange(i, i + v[k].len()));
        assert(occurs_at(all, v[k], i));
    }
}

/// The pieces of a text put together again are the text, and none of them holds the
/// character that parts them.
pub proof fn pieces_make_up_the_text(s: Seq<char>, c: char)
    ensures
        joined(pieces(s, c), seq![c]) == s,
        forall|k: int| 0 <= k < pieces(s, c).len() ==> !(#[trigger] pieces(s, c)[k]).contains(c),
    decreases s.len(),
{
    let ps = pieces(s, c);
    if s.len() == 0 {
        assert(joined(ps, seq![c]) =~= s);
    } else {
        let front = pieces(s.drop_last(), c);
        pieces_not_empty(s.drop_last(), c);
        pieces_make_up_the_text(s.drop_last(), c);
        assert(s =~= s.drop_last().push(s.last()));
        if s.last() == c {
            assert(ps.drop_last() =~= front);
            assert(joined(ps, seq![c]) =~= s);
            assert forall|k: int| 0 <= k < ps.len() implies !(#[trigger] ps[k]).contains(c) by {
                if k < front.len() {
                    assert(!front[k].contains(c));
                }
            }
        } else {
            assert(ps.drop_last() =~= front.drop_last());
            assert(joined(ps, seq![c]) =~= joined(front, seq![c]).push(s.last()));
            assert forall|k: int| 0 <= k < ps.len() implies !(#[trigger] ps[k]).contains(c) by {
                assert(!front[k].contains(c));
                if k == front.len() - 1 {
                    let l = front[k].push(s.last());
                    if l.contains(c) {
                        let i = choose|i: int| 0 <= i < l.len() && l[i] == c;
                        if i < front[k].len() {
                            assert(front[k][i] == c);
                        }
                    }
                }
            }
        }
    }
}

/// Every piece of a text before a parting character and every piece behind it is a
/// piece of the whole: two texts with it between them have the pieces of both.
pub proof fn pieces_of_two(a: Seq<char>, b: Seq<char>, c: char)
    ensures
        pieces(a + seq![c] + b, c) == pieces(a, c) + pieces(b, c),
        !a.contains(c) ==> pieces(a, c) == seq![a],
    decreases b.len(), a.len(),
{
    let w = a + seq![c] + b;
    pieces_not_empty(a, c);
    pieces_not_empty(b, c);
    if b.len() == 0 {
        assert(w.drop_last() =~= a);
        assert(pieces(w, c) =~= pieces(a, c) + pieces(b, c));
    } else {
        pieces_not_empty(b.drop_last(), c);
        assert(w.drop_last() =~= a + seq![c] + b.drop_last());
        pieces_of_two(a, b.drop_last(), c);
        assert(w.last() == b.last());
        assert(pieces(w, c) =~= pieces(a, c) + pieces(b, c));
    }
    if !a.contains(c) && a.len() > 0 {
        assert(a[a.len() - 1] == a.last());
        assert(!a.drop_last().contains(c)) by {
            if a.drop_last().contains(c) {
                let i = choose|i: int| 0 <= i < a.drop_last().len() && a.drop_last()[i] == c;
                assert(a[i] == c);
            }
        }
        pieces_whole(a, c);
    } else if a.len() == 0 {
        assert(a =~= Seq::<char>::empty());
        assert(pieces(a, c) =~= seq![a]);
    }
}

proof fn pieces_whole(a: Seq<char>, c: char)
    requires
        !a.contains(c),
    ensures
        pieces(a, c) == seq![a],
    decreases a.len(),
{
    if a.len() == 0 {
        assert(a =~= Seq::<char>::empty());
        assert(pieces(a, c) =~= seq![a]);
    } else {
        assert(a[a.len() - 1] == a.last());
        assert(!a.drop_last().contains(c)) by {
            if a.drop_last().contains(c) {
                let i = choose|i: int| 0 <= i < a.drop_last().len() && a.drop_last()[i] == c;
                assert(a[i] == c);
            }
        }
        pieces_whole(a.drop_last(), c);
        assert(a.drop_last().push(a.last()) =~= a);
        assert(pieces(a, c) =~= seq![a]);
    }
}

/// A line ends at its line end, with or without a carriage return before it, and
/// what follows the last line end is a line where there is anything.
pub proof fn lines_end_at_line_ends(line: Seq<char>, rest: Seq<char>)
    requires
        !line.contains('\n'),
    ensures
        line.len() == 0 || line.last() != '\r' ==> lines_of(line + seq!['\n'] + rest) == seq![line] + lines_of(rest),
        lines_of(line + seq!['\r'] + seq!['\n'] + rest) == seq![line] + lines_of(rest),
        line.len() > 0 ==> lines_of(line) == seq![line],
        lines_of(seq![]) == Seq::<Seq<char>>::empty(),
{
    let f = |l: Seq<char>| without_cr(l);
    pieces_of_two(line, rest, '\n');
    pieces_not_empty(rest, '\n');
    let pr = pieces(rest, '\n');
    let p = seq![line] + pr;
    assert(p.drop_last() =~= seq![line] + pr.drop_last());
    assert(p.last() == pr.last());
    if line.len() == 0 || line.last() != '\r' {
        assert(lines_of(line + seq!['\n'] + rest) =~= seq![line] + lines_of(rest));
    }
    let with = line + seq!['\r'];
    assert(!with.contains('\n')) by {
        if with.contains('\n') {
            let i = choose|i: int| 0 <= i < with.len() && with[i] == '\n';
            assert(line[i] == '\n');
        }
    }
    pieces_of_two(with, rest, '\n');
    let q = seq![with] + pr;
    assert(q.drop_last() =~= seq![with] + pr.drop_last());
    assert(without_cr(with) =~= line);
    assert(lines_of(with + seq!['\n'] + rest) =~= seq![line] + lines_of(rest));
    pieces_whole(line, '\n');
    assert(seq![line].drop_last() =~= Seq::<Seq<char>>::empty());
    if line.len() > 0 {
        assert(lines_of(line) =~= seq![line]);
    }
    let none = Seq::<char>::empty();
    pieces_whole(none, '\n');
    assert(seq![none].drop_last() =~= Seq::<Seq<char>>::empty());
    assert(lines_of(none) =~= Seq::<Seq<char>>::empty());
}

proof fn words_shift(s: Seq<char>, t: Seq<char>, d: int, i: int)
    requires
        0 <= d,
        0 <= i,
        s.len() == t.len() + d,
        forall|j: int| i <= j < t.len() ==> s[j + d] == #[trigger] t[j],
    ensures
        words_from(s, i + d) == words_from(t, i),
    decreases t.len() - i,
{
    if i < t.len() {
        assert(s[i + d] == t[i]);
        if is_space(t[i]) {
            words_shift(s, t, d, i + 1);
        } else {
            ends_shift(s, t, d, i);
            word_end_bounds(t, i);
            word_end_bounds(t, i + 1);
            let e = word_end(t, i);
            assert(s.subrange(i + d, e + d) =~= t.subrange(i, e)) by {
                assert forall|j: int| 0 <= j < e - i implies s.subrange(i + d, e + d)[j] == t.subrange(i, e)[j] by {
                    assert(s[(i + j) + d] == t[i + j]);
                }
            }
            words_shift(s, t, d, e);
        }
    }
}

proof fn ends_shift(s: Seq<char>, t: Seq<char>, d: int, i: int)
    requires
        0 <= d,
        0 <= i <= t.len(),
        s.len() == t.len() + d,
        forall|j: int| i <= j < t.len() ==> s[j + d] == #[trigger] t[j],
    ensures
        word_end(s, i + d) == word_end(t, i) + d,
    decreases t.len() - i,
{
    if i < t.len() {
        assert(s[i + d] == t[i]);
        if !is_space(t[i]) {
            ends_shift(s, t, d, i + 1);
        }
    }
}

/// White space parts words: what stands before it and what stands behind it have
/// words of their own. Without any, a text is one word; nothing has none.
pub proof fn white_space_parts_words(w: Seq<char>, c: char, rest: Seq<char>)
    requires
        forall|i: int| 0 <= i < w.len() ==> !is_space(#[trigger] w[i]),
        is_space(c),
    ensures
        words(w + seq![c] + rest) == if w.len() == 0 {
            words(rest)
        } else {
            seq![w] + words(rest)
        },
        w.len() > 0 ==> words(w) == seq![w],
        words(seq![]) == Seq::<Seq<char>>::empty(),
{
    let n = w.len() as int;
    let s = w + seq![c] + rest;
    assert(s[n] == c);
    words_shift(s, rest, n + 1, 0);
    assert(words_from(s, n) == words_from(s, n + 1));
    if n > 0 {
        assert forall|j: int| 0 <= j < n implies !is_space(#[trigger] s[j]) by {
            assert(s[j] == w[j]);
        }
        word_end_is(s, 0, n);
        assert(s.subrange(0, n) =~= w);
        word_end_is(w, 0, n);
        assert(w.subrange(0, n) =~= w);
        assert(words_from(w, n) =~= Seq::<Seq<char>>::empty());
        assert(!is_space(w[0]));
        assert(words(w) =~= seq![w]);
    }
}

/// The order of code points goes by the first character in which two texts differ;
/// where one begins with the other, the shorter comes first.
pub proof fn first_difference_decides(p: Seq<char>, x: Seq<char>, y: Seq<char>)
    requires
        x.len() > 0,
    ensures
        text_less(p, p + x),
        y.len() > 0 && x[0] != y[0] ==> (text_less(p + x, p + y) <==> (x[0] as int) < (y[0] as int)),
    decreases p.len(),
{
    if p.len() == 0 {
        assert(p + x =~= x);
        assert(p + y =~= y);
    } else {
        assert((p + x).skip(1) =~= p.skip(1) + x);
        assert((p + y).skip(1) =~= p.skip(1) + y);
        first_difference_decides(p.skip(1), x, y);
    }
}

/// A number in decimal notation is made of digits; the first is no zero unless it
/// is the only one, and one more digit is ten times the number and the digit.
pub proof fn decimal_is_made_of_digits(n: nat, d: nat)
    requires
        d < 10,
    ensures
        decimal(n).len() > 0,
        forall|i: int| 0 <= i < decimal(n).len() ==> is_ascii_digit(#[trigger] decimal(n)[i]),
        decimal(n)[0] == '0' ==> n == 0,
        decimal(d).len() == 1 && decimal(d)[0] as int == '0' as int + d,
        n > 0 ==> decimal(10 * n + d) == decimal(n) + decimal(d),
        n > 0 ==> signed_decimal(-n) == seq!['-'] + decimal(n),
        signed_decimal(n as int) == decimal(n),
    decreases n,
{
    assert forall|k: int| 0 <= k < 10 implies (#[trigger] digit_char(k)) as int == 48 + k by {}
    if n > 0 {
        assert((10 * n + d) / 10 == n && (10 * n + d) % 10 == d);
        assert(decimal(10 * n + d) =~= decimal(n) + decimal(d));
    }
    assert(digit_char((n % 10) as int) as int == 48 + n % 10);
    if n >= 10 {
        decimal_is_made_of_digits(n / 10, d);
        decimal_len(n / 10);
        let front = decimal(n / 10);
        assert(decimal(n)[0] == front[0]);
        assert forall|i: int| 0 <= i < decimal(n).len() implies is_ascii_digit(#[trigger] decimal(n)[i]) by {
            if i < front.len() {
                assert(is_ascii_digit(front[i]));
            }
        }
    }
}

/// Numbers below sixteen to the power of the width have different hexadecimal
/// notations, as wide as asked for and made of digits and the letters a to f.
pub proof fn hex_tells_apart(a: nat, b: nat, w: nat)
    requires
        hex(a, w) == hex(b, w),
        a < vstd::arithmetic::power::pow(16, w),
        b < vstd::arithmetic::power::pow(16, w),
    ensures
        a == b,
        hex(a, w).len() == w,
        forall|i: int| 0 <= i < w ==> is_ascii_digit(#[trigger] hex(a, w)[i]) || 'a' <= hex(a, w)[i] <= 'f',
    decreases w,
{
    assert forall|k: int| 0 <= k < 10 implies (#[trigger] hex_char(k)) as int == 48 + k by {}
    assert forall|k: int| 10 <= k < 16 implies (#[trigger] hex_char(k)) as int == 87 + k by {}
    reveal(vstd::arithmetic::power::pow);
    if w == 0 {
        assert(vstd::arithmetic::power::pow(16, 0) == 1);
    } else {
        let v = (w - 1) as nat;
        let ha = hex(a / 16, v);
        let hb = hex(b / 16, v);
        assert(hex(a, w).drop_last() =~= ha && hex(b, w).drop_last() =~= hb);
        assert(hex(a, w).last() == hex_char((a % 16) as int));
        assert(hex(b, w).last() == hex_char((b % 16) as int));
        assert(vstd::arithmetic::power::pow(16, w) == 16 * vstd::arithmetic::power::pow(16, v));
        hex_tells_apart(a / 16, b / 16, v);
        let ka = (a % 16) as int;
        let kb = (b % 16) as int;
        assert(0 <= ka < 16 && 0 <= kb < 16);
        assert(hex_char(ka) as int == if ka < 10 { 48 + ka } else { 87 + ka });
        assert(hex_char(kb) as int == if kb < 10 { 48 + kb } else { 87 + kb });
        assert forall|i: int| 0 <= i < w implies is_ascii_digit(#[trigger] hex(a, w)[i]) || 'a' <= hex(a, w)[i] <= 'f' by {
            if i < v {
                assert(hex(a, w)[i] == ha[i]);
            }
        }
    }
}

/// Lower case changes the letters from A to Z and nothing else: each becomes the
/// small letter as far behind a as it was behind A.
pub proof fn lower_case_changes_capitals(s: Seq<char>, i: int)
    requires
        0 <= i < s.len(),
    ensures
        ascii_lower(s).len() == s.len(),
        'A' <= s[i] <= 'Z' ==> ascii_lower(s)[i] as int - 'a' as int == s[i] as int - 'A' as int,
        !('A' <= s[i] <= 'Z') ==> ascii_lower(s)[i] == s[i],
{
    if 'A' <= s[i] <= 'Z' {
        let n = s[i] as u32 + 32;
        assert(97 <= n <= 122);
    }
}

/// Of a text at most the first `n` characters are taken, and all that there are of
/// them.
pub proof fn first_characters_are_the_start(s: Seq<char>, n: nat)
    ensures
        begins_with(s, first_chars(s, n as int)),
        first_chars(s, n as int).len() == if s.len() < n { s.len() } else { n },
{
    assert(s.take(s.len() as int) =~= s);
}

/// What stands at the start of a text, over and over, is taken off, and nothing
/// behind it is: what is left does not begin so.
pub proof fn leading_parts_are_taken_off(s: Seq<char>, c: char, p: Seq<char>)
    requires
        p.len() > 0,
    ensures
        without_leading(seq![c] + s, c) == without_leading(s, c),
        s.len() == 0 || s[0] != c ==> without_leading(s, c) == s,
        without_words(p + s, p) == without_words(s, p),
        !begins_with(s, p) ==> without_words(s, p) == s,
{
    assert((seq![c] + s).skip(1) =~= s);
    assert((p + s).skip(p.len() as int) =~= s);
    assert((p + s).take(p.len() as int) =~= p);
}

/// A path with slashes is as long as before, has no backslash, and differs from it
/// only where there was one.
pub proof fn slashes_for_backslashes(s: Seq<char>, i: int)
    requires
        0 <= i < s.len(),
    ensures
        slashed(s).len() == s.len(),
        s[i] == '\\' ==> slashed(s)[i] == '/',
        s[i] != '\\' ==> slashed(s)[i] == s[i],
{
}

/// A path from the top stays what it is; any other begins with the root and ends
/// with the path, with one slash between them.
pub proof fn paths_go_below_the_root(root: Seq<char>, path: Seq<char>)
    ensures
        path.len() > 0 && path[0] == '/' ==> below(root, path) == path,
        path.len() == 0 || path[0] != '/' ==> begins_with(below(root, path), root) && finishes_with(
            below(root, path),
            path,
        ),
        (path.len() == 0 || path[0] != '/') && root.len() > 0 && root.last() != '/' ==> below(root, path)
            == root + seq!['/'] + path,
        (path.len() == 0 || path[0] != '/') && (root.len() == 0 || root.last() == '/') ==> below(root, path) == root + path,
{
    reveal_strlit("/");
    assert("/"@ =~= seq!['/']);
    let r = below(root, path);
    if path.len() == 0 || path[0] != '/' {
        assert(r.take(root.len() as int) =~= root);
        assert(r.skip(r.len() - path.len()) =~= path);
    }
}

/// White space is what parts words: the blank, the tab and the ends of lines are,
/// letters, digits and signs of ASCII are not.
pub proof fn letters_are_no_white_space(c: char)
    ensures
        c == ' ' || c == '\t' || c == '\n' || c == '\r' ==> is_space(c),
        '!' <= c <= '~' ==> !is_space(c),
{
}

} // verus!
