//! Character-level text helpers shared by the rest of the library.
//!
//! Strings are modelled by their `Seq<char>` view.  Trimming follows the
//! Unicode `White_Space` property, which is what `char::is_whitespace`
//! (and therefore `str::trim`) uses.
use vstd::prelude::*;

verus! {

/// The Unicode `White_Space` property: the characters that `str::trim`
/// removes.
pub open spec fn is_white_space(c: char) -> bool {
    let u = c as u32;
    ||| 0x9 <= u <= 0xd
    ||| u == 0x20
    ||| u == 0x85
    ||| u == 0xa0
    ||| u == 0x1680
    ||| 0x2000 <= u <= 0x200a
    ||| u == 0x2028
    ||| u == 0x2029
    ||| u == 0x202f
    ||| u == 0x205f
    ||| u == 0x3000
}

/// Executable test for `is_white_space`.
pub fn white_space(c: char) -> (r: bool)
    ensures
        r == is_white_space(c),
{
    let u = c as u32;
    (0x9 <= u && u <= 0xd) || u == 0x20 || u == 0x85 || u == 0xa0 || u == 0x1680 || (0x2000 <= u
        && u <= 0x200a) || u == 0x2028 || u == 0x2029 || u == 0x202f || u == 0x205f || u == 0x3000
}

/// Among ASCII characters, exactly tab, line feed, vertical tab, form feed,
/// carriage return and space are white space; letters, digits and
/// punctuation never are.
pub proof fn lemma_ascii_white_space(c: char)
    requires
        (c as u32) < 128,
    ensures
        is_white_space(c) <==> (c == '\t' || c == '\n' || c == '\u{b}' || c == '\u{c}' || c
            == '\r' || c == ' '),
        ('!' <= c <= '~') ==> !is_white_space(c),
{
}

/// Trimming leaves alone a text that starts and ends with a visible ASCII
/// character (anything from `!` to `~`).
pub proof fn lemma_trim_keeps_visible_ends(s: Seq<char>)
    requires
        s.len() > 0,
        '!' <= s[0] <= '~',
        '!' <= s.last() <= '~',
    ensures
        trim_ws(s) == s,
{
    lemma_ascii_white_space(s[0]);
    lemma_ascii_white_space(s.last());
}

/// `s` without its leading white space.
pub open spec fn trim_start_ws(s: Seq<char>) -> Seq<char>
    decreases s.len(),
{
    if s.len() > 0 && is_white_space(s[0]) {
        trim_start_ws(s.drop_first())
    } else {
        s
    }
}

/// `s` without its trailing white space.
pub open spec fn trim_end_ws(s: Seq<char>) -> Seq<char>
    decreases s.len(),
{
    if s.len() > 0 && is_white_space(s.last()) {
        trim_end_ws(s.drop_last())
    } else {
        s
    }
}

/// `s` with white space removed at both ends (`str::trim`).
pub open spec fn trim_ws(s: Seq<char>) -> Seq<char> {
    trim_end_ws(trim_start_ws(s))
}

/// `s` with every trailing occurrence of `c` removed (`str::trim_end_matches`).
pub open spec fn trim_end_char(s: Seq<char>, c: char) -> Seq<char>
    decreases s.len(),
{
    if s.len() > 0 && s.last() == c {
        trim_end_char(s.drop_last(), c)
    } else {
        s
    }
}

/// The lower-case form of a string, as `str::to_lowercase` computes it
/// (Unicode lower-case mapping, including its context-dependent rules).
pub uninterp spec fn unicode_lowercase(s: Seq<char>) -> Seq<char>;

/// Whether every character of `s` is ASCII.
pub open spec fn is_ascii_text(s: Seq<char>) -> bool {
    forall|i: int| 0 <= i < s.len() ==> (#[trigger] s[i] as u32) < 128
}

/// `c` with `A`..`Z` mapped to `a`..`z`.
pub open spec fn ascii_lower_char(c: char) -> char {
    if 65 <= c as u32 <= 90 {
        ((c as u32) + 32) as char
    } else {
        c
    }
}

/// `c` with `a`..`z` mapped to `A`..`Z`.
pub open spec fn ascii_upper_char(c: char) -> char {
    if 97 <= c as u32 <= 122 {
        ((c as u32) - 32) as char
    } else {
        c
    }
}

/// `s` with its ASCII capitals lower-cased (`str::to_ascii_lowercase`).
pub open spec fn ascii_lowercase(s: Seq<char>) -> Seq<char> {
    s.map_values(|c: char| ascii_lower_char(c))
}

/// `s` with its ASCII small letters capitalised (`str::to_ascii_uppercase`).
pub open spec fn ascii_uppercase(s: Seq<char>) -> Seq<char> {
    s.map_values(|c: char| ascii_upper_char(c))
}

/// ASCII case mapping keeps white space, slashes and ASCII as they are,
/// lower-cases what it capitalised, and does nothing a second time.
pub proof fn lemma_ascii_case_char(c: char)
    ensures
        ascii_lower_char(ascii_lower_char(c)) == ascii_lower_char(c),
        ascii_lower_char(ascii_upper_char(c)) == ascii_lower_char(c),
        is_white_space(ascii_lower_char(c)) == is_white_space(c),
        is_white_space(ascii_upper_char(c)) == is_white_space(c),
        (ascii_lower_char(c) == '/') == (c == '/'),
        (ascii_upper_char(c) == '/') == (c == '/'),
        (c as u32) < 128 ==> (ascii_lower_char(c) as u32) < 128,
        (c as u32) < 128 ==> (ascii_upper_char(c) as u32) < 128,
{
    let u = c as u32;
    if 65 <= u <= 90 {
        assert((((u + 32) as char) as u32) == u + 32);
    }
    if 97 <= u <= 122 {
        assert((((u - 32) as char) as u32) == u - 32);
    }
}

/// Calls `str::to_lowercase`.  The result is fixed by the input alone and
/// is called `unicode_lowercase`.  Of the Unicode mapping only its ASCII
/// part is stated: there the Unicode lower-case mapping sends `A`..`Z` to
/// `a`..`z` and leaves every other ASCII character as it is.  What it does
/// to other characters is not stated.
#[verifier::external_body]
pub(crate) fn to_lowercase(s: &str) -> (r: String)
    ensures
        r@ == unicode_lowercase(s@),
        is_ascii_text(s@) ==> r@ == ascii_lowercase(s@),
{
    s.to_lowercase()
}

/// Calls `String::push`, which appends one character.
#[verifier::external_body]
fn push_char(s: &mut String, c: char)
    ensures
        final(s)@ == old(s)@.push(c),
{
    s.push(c)
}

/// The characters of `s`, in order.
pub fn chars_of(s: &str) -> (v: Vec<char>)
    ensures
        v@ == s@,
{
    let n = s.unicode_len();
    let mut v: Vec<char> = Vec::new();
    let mut i: usize = 0;
    while i < n
        invariant
            n == s@.len(),
            i <= n,
            v@ == s@.subrange(0, i as int),
        decreases n - i,
    {
        v.push(s.get_char(i));
        i = i + 1;
    }
    v
}

/// A `String` holding `v[from..to]`.
pub fn string_of(v: &Vec<char>, from: usize, to: usize) -> (s: String)
    requires
        from <= to <= v@.len(),
    ensures
        s@ == v@.subrange(from as int, to as int),
{
    let mut s = String::new();
    let mut i = from;
    while i < to
        invariant
            from <= i <= to <= v@.len(),
            s@ == v@.subrange(from as int, i as int),
        decreases to - i,
    {
        push_char(&mut s, v[i]);
        assert(s@ == v@.subrange(from as int, i + 1));
        i = i + 1;
    }
    s
}

/// `a` followed by `b`.
pub fn concat(a: &str, b: &str) -> (s: String)
    ensures
        s@ == a@ + b@,
{
    let mut s = String::from_str(a);
    s.append(b);
    s
}

/// `a`, `b` and `c` one after the other.
pub fn concat3(a: &str, b: &str, c: &str) -> (s: String)
    ensures
        s@ == a@ + b@ + c@,
{
    let mut s = String::from_str(a);
    s.append(b);
    s.append(c);
    s
}

/// Index of the first character of `v` that is not white space (or `v.len()`).
fn first_non_ws(v: &Vec<char>) -> (i: usize)
    ensures
        i <= v@.len(),
        trim_start_ws(v@) == v@.subrange(i as int, v@.len() as int),
{
    let mut i: usize = 0;
    assert(v@.subrange(0, v@.len() as int) == v@);
    while i < v.len()
        invariant
            i <= v@.len(),
            trim_start_ws(v@) == trim_start_ws(v@.subrange(i as int, v@.len() as int)),
        decreases v@.len() - i,
    {
        if !white_space(v[i]) {
            return i;
        }
        assert(v@.subrange(i as int, v@.len() as int).drop_first() == v@.subrange(
            i + 1,
            v@.len() as int,
        ));
        i = i + 1;
    }
    assert(v@.subrange(i as int, v@.len() as int).len() == 0);
    i
}

/// Largest `j` in `from..=to` such that `v[from..j]` has no trailing white space
/// and equals `trim_end_ws(v[from..to])`.
fn end_without_ws(v: &Vec<char>, from: usize, to: usize) -> (j: usize)
    requires
        from <= to <= v@.len(),
    ensures
        from <= j <= to,
        trim_end_ws(v@.subrange(from as int, to as int)) == v@.subrange(from as int, j as int),
{
    let mut j = to;
    while j > from
        invariant
            from <= j <= to <= v@.len(),
            trim_end_ws(v@.subrange(from as int, to as int)) == trim_end_ws(
                v@.subrange(from as int, j as int),
            ),
        decreases j,
    {
        if !white_space(v[j - 1]) {
            return j;
        }
        assert(v@.subrange(from as int, j as int).drop_last() == v@.subrange(
            from as int,
            j - 1,
        ));
        j = j - 1;
    }
    j
}

/// Largest `j` in `from..=to` such that `v[from..j] == trim_end_char(v[from..to], c)`.
fn end_without_char(v: &Vec<char>, from: usize, to: usize, c: char) -> (j: usize)
    requires
        from <= to <= v@.len(),
    ensures
        from <= j <= to,
        trim_end_char(v@.subrange(from as int, to as int), c) == v@.subrange(
            from as int,
            j as int,
        ),
{
    let mut j = to;
    while j > from
        invariant
            from <= j <= to <= v@.len(),
            trim_end_char(v@.subrange(from as int, to as int), c) == trim_end_char(
                v@.subrange(from as int, j as int),
                c,
            ),
        decreases j,
    {
        if v[j - 1] != c {
            return j;
        }
        assert(v@.subrange(from as int, j as int).drop_last() == v@.subrange(
            from as int,
            j - 1,
        ));
        j = j - 1;
    }
    j
}

/// Bounds `(i, j)` with `v[i..j] == trim_end_char(trim_ws(v), c)`.
pub fn trimmed_bounds(v: &Vec<char>, c: char) -> (r: (usize, usize))
    ensures
        r.0 <= r.1 <= v@.len(),
        v@.subrange(r.0 as int, r.1 as int) == trim_end_char(trim_ws(v@), c),
{
    let i = first_non_ws(v);
    let j = end_without_ws(v, i, v.len());
    let k = end_without_char(v, i, j, c);
    (i, k)
}

/// Whether `s` contains only white space (`s.trim().is_empty()`).
pub fn is_blank(s: &str) -> (r: bool)
    ensures
        r == (trim_ws(s@).len() == 0),
{
    let v = chars_of(s);
    let i = first_non_ws(&v);
    let j = end_without_ws(&v, i, v.len());
    i == j
}

/// `s.trim()` as a new `String`.
pub fn trimmed(s: &str) -> (r: String)
    ensures
        r@ == trim_ws(s@),
{
    let v = chars_of(s);
    let i = first_non_ws(&v);
    let j = end_without_ws(&v, i, v.len());
    string_of(&v, i, j)
}


/// The character of the decimal digit `d`.
pub open spec fn digit_char(d: nat) -> char {
    (48 + d) as char
}

/// The decimal writing of `n`, without leading zeros.
pub open spec fn decimal_digits(n: nat) -> Seq<char>
    decreases n,
{
    if n < 10 {
        seq![digit_char(n)]
    } else {
        decimal_digits(n / 10).push(digit_char(n % 10))
    }
}

/// The character of the decimal digit `d`.
fn digit(d: u64) -> (c: char)
    requires
        d < 10,
    ensures
        c == digit_char(d as nat),
{
    match d {
        0 => '0',
        1 => '1',
        2 => '2',
        3 => '3',
        4 => '4',
        5 => '5',
        6 => '6',
        7 => '7',
        8 => '8',
        _ => '9',
    }
}

/// `n` written in decimal.
pub fn decimal(n: u64) -> (s: String)
    ensures
        s@ == decimal_digits(n as nat),
    decreases n,
{
    if n < 10 {
        let mut s = String::new();
        push_char(&mut s, digit(n));
        assert(s@ =~= seq![digit_char(n as nat)]);
        s
    } else {
        let mut s = decimal(n / 10);
        push_char(&mut s, digit(n % 10));
        s
    }
}

} // verus!
