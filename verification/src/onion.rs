//! Normalisation of pasted `.onion` addresses.
use vstd::prelude::*;

use crate::text::{
    ascii_lower_char, ascii_lowercase, ascii_upper_char, ascii_uppercase, chars_of, concat,
    is_ascii_text, is_white_space, lemma_ascii_case_char, string_of, to_lowercase, trim_end_char, trim_end_ws,
    trim_start_ws, trim_ws, trimmed_bounds, unicode_lowercase,
};

verus! {

/// The characters of `.onion`.
pub open spec fn onion_suffix() -> Seq<char> {
    seq!['.', 'o', 'n', 'i', 'o', 'n']
}

/// Whether `s` ends with `.onion`.
pub open spec fn ends_with_onion(s: Seq<char>) -> bool {
    s.len() >= 6 && s.subrange(s.len() - 6, s.len() as int) == onion_suffix()
}

/// `s` with every trailing `.onion` removed.
pub open spec fn strip_onion_suffixes(s: Seq<char>) -> Seq<char>
    decreases s.len(),
{
    if ends_with_onion(s) {
        strip_onion_suffixes(s.subrange(0, s.len() - 6))
    } else {
        s
    }
}

/// The host part of an address: trimmed, without trailing slashes,
/// lower-cased, and without any `.onion` suffix.
pub open spec fn onion_core(value: Seq<char>) -> Seq<char> {
    strip_onion_suffixes(unicode_lowercase(trim_end_char(trim_ws(value), '/')))
}

/// The normal form of an address: empty when nothing is left of its host
/// part, and otherwise that host part followed by exactly one `.onion`.
pub open spec fn normalized_onion(value: Seq<char>) -> Seq<char> {
    let core = onion_core(value);
    if core.len() == 0 {
        Seq::empty()
    } else {
        core + onion_suffix()
    }
}

/// The host part of a pasted address: trimmed, and without trailing
/// slashes.
pub open spec fn onion_host(value: Seq<char>) -> Seq<char> {
    trim_end_char(trim_ws(value), '/')
}

/// The normal form that `normalize_onion` gives an ASCII address: its host
/// part with `A`..`Z` lower-cased, finished as `onion_from_lowercase` says.
pub open spec fn ascii_normalized_onion(value: Seq<char>) -> Seq<char> {
    onion_from_lowercase(ascii_lowercase(onion_host(value)))
}

/// Whether `w[n - 6..n]` is `.onion`.
fn ends_with_onion_at(w: &Vec<char>, n: usize) -> (r: bool)
    requires
        n <= w@.len(),
    ensures
        r == ends_with_onion(w@.subrange(0, n as int)),
{
    if n < 6 {
        return false;
    }
    let r = w[n - 6] == '.' && w[n - 5] == 'o' && w[n - 4] == 'n' && w[n - 3] == 'i' && w[n - 2]
        == 'o' && w[n - 1] == 'n';
    let ghost s = w@.subrange(0, n as int);
    let ghost tail = s.subrange(s.len() - 6, s.len() as int);
    assert(r ==> tail =~= onion_suffix());
    assert(tail == onion_suffix() ==> r) by {
        if tail == onion_suffix() {
            assert(tail[0] == '.' && tail[1] == 'o' && tail[2] == 'n');
            assert(tail[3] == 'i' && tail[4] == 'o' && tail[5] == 'n');
        }
    }
    r
}

/// The normal form of an already lower-cased host: every trailing `.onion`
/// removed, then one `.onion` put back unless nothing is left.
pub open spec fn onion_from_lowercase(lower: Seq<char>) -> Seq<char> {
    let core = strip_onion_suffixes(lower);
    if core.len() == 0 {
        Seq::empty()
    } else {
        core + onion_suffix()
    }
}

/// Finishes normalising an address once it has been trimmed and lower-cased:
/// repeated `.onion` suffixes collapse into one, and an address with nothing
/// left becomes the empty string.
pub fn finish_onion(lower: &str) -> (r: String)
    ensures
        r@ == onion_from_lowercase(lower@),
{
    let w = chars_of(lower);
    let mut n = w.len();
    assert(w@.subrange(0, n as int) == w@);
    while ends_with_onion_at(&w, n)
        invariant
            n <= w@.len(),
            strip_onion_suffixes(w@) == strip_onion_suffixes(w@.subrange(0, n as int)),
        decreases n,
    {
        assert(w@.subrange(0, n as int).subrange(0, n - 6) == w@.subrange(0, n - 6));
        n = n - 6;
    }
    if n == 0 {
        String::new()
    } else {
        let core = string_of(&w, 0, n);
        proof {
            reveal_strlit(".onion");
        }
        concat(core.as_str(), ".onion")
    }
}

/// Normalises a pasted `.onion` address: surrounding white space and
/// trailing slashes are dropped, the address is lower-cased, repeated
/// `.onion` suffixes collapse into one, and an address with nothing left
/// becomes the empty string.
pub fn normalize_onion(value: &str) -> (r: String)
    ensures
        r@ == normalized_onion(value@),
        is_ascii_text(value@) ==> r@ == ascii_normalized_onion(value@),
{
    let v = chars_of(value);
    let (i, j) = trimmed_bounds(&v, '/');
    let t = string_of(&v, i, j);
    proof {
        if is_ascii_text(value@) {
            assert forall|k: int| 0 <= k < t@.len() implies (#[trigger] t@[k] as u32) < 128 by {
                assert(t@[k] == v@[i + k]);
            }
        }
    }
    let lower = to_lowercase(t.as_str());
    finish_onion(lower.as_str())
}

/// Nothing that `strip_onion_suffixes` returns ends with `.onion`.
pub proof fn lemma_stripped_has_no_suffix(s: Seq<char>)
    ensures
        !ends_with_onion(strip_onion_suffixes(s)),
        strip_onion_suffixes(s).len() <= s.len(),
    decreases s.len(),
{
    if ends_with_onion(s) {
        lemma_stripped_has_no_suffix(s.subrange(0, s.len() - 6));
    }
}

/// A normalised address is either empty or a non-empty host followed by
/// exactly one `.onion` (the host itself never ends with `.onion`).
pub proof fn lemma_normalized_shape(value: Seq<char>)
    ensures
        normalized_onion(value).len() == 0 || {
            let core = onion_core(value);
            &&& core.len() > 0
            &&& !ends_with_onion(core)
            &&& normalized_onion(value) == core + onion_suffix()
            &&& ends_with_onion(normalized_onion(value))
        },
{
    lemma_stripped_has_no_suffix(unicode_lowercase(trim_end_char(trim_ws(value), '/')));
    let core = onion_core(value);
    if core.len() > 0 {
        assert((core + onion_suffix()).subrange(core.len() as int, core.len() + 6int)
            =~= onion_suffix());
    }
}

/// Normalising an already normalised address gives it back, provided that
/// lower-casing leaves that address unchanged and that it does not start
/// with white space.
pub proof fn lemma_normalize_idempotent(value: Seq<char>)
    requires
        unicode_lowercase(normalized_onion(value)) == normalized_onion(value),
        normalized_onion(value).len() > 0 ==> !is_white_space(normalized_onion(value)[0]),
    ensures
        normalized_onion(normalized_onion(value)) == normalized_onion(value),
{
    let y = normalized_onion(value);
    lemma_normalized_shape(value);
    if y.len() == 0 {
        assert(trim_start_ws(y) == y);
        assert(trim_end_ws(y) == y);
        assert(trim_end_char(y, '/') == y);
        assert(!ends_with_onion(y));
    } else {
        let core = onion_core(value);
        assert(trim_start_ws(y) == y);
        assert(y.last() == 'n');
        assert(trim_end_ws(y) == y);
        assert(trim_end_char(y, '/') == y);
        assert(y.subrange(0, y.len() - 6) =~= core);
        assert(strip_onion_suffixes(y) == strip_onion_suffixes(core));
    }
}


/// Leading white space is trimmed from a concatenation as from its parts.
proof fn lemma_trim_start_concat(s: Seq<char>, t: Seq<char>)
    ensures
        trim_start_ws(s + t) == (if trim_start_ws(s).len() > 0 {
            trim_start_ws(s) + t
        } else {
            trim_start_ws(t)
        }),
    decreases s.len(),
{
    if s.len() == 0 {
        assert(s + t =~= t);
    } else if is_white_space(s[0]) {
        assert((s + t).drop_first() =~= s.drop_first() + t);
        lemma_trim_start_concat(s.drop_first(), t);
    } else {
        assert((s + t)[0] == s[0]);
    }
}

/// What trimming leading white space leaves is empty or ends as `s` does.
proof fn lemma_trim_start_last(s: Seq<char>)
    ensures
        trim_start_ws(s).len() <= s.len(),
        trim_start_ws(s).len() > 0 ==> trim_start_ws(s).last() == s.last(),
        s.len() > 0 && trim_start_ws(s).len() == 0 ==> is_white_space(s.last()),
    decreases s.len(),
{
    if s.len() > 0 && is_white_space(s[0]) {
        lemma_trim_start_last(s.drop_first());
        if s.len() > 1 {
            assert(s.drop_first().last() == s.last());
        }
    }
}

/// A text that does not end in white space keeps its end when trimmed.
proof fn lemma_trim_end_noop(s: Seq<char>)
    requires
        s.len() == 0 || !is_white_space(s.last()),
    ensures
        trim_end_ws(s) == s,
{
}

/// Trimming `s` followed by `tail`, where `tail` neither starts nor ends
/// with white space and `s` does not end with it, keeps `tail` whole.
proof fn lemma_trim_with_tail(s: Seq<char>, tail: Seq<char>)
    requires
        s.len() == 0 || !is_white_space(s.last()),
        tail.len() > 0,
        !is_white_space(tail[0]),
        !is_white_space(tail.last()),
    ensures
        trim_ws(s + tail) == trim_ws(s) + tail,
{
    lemma_trim_start_concat(s, tail);
    lemma_trim_start_last(s);
    if trim_start_ws(s).len() > 0 {
        lemma_trim_end_noop(trim_start_ws(s));
        assert((trim_start_ws(s) + tail).last() == tail.last());
        lemma_trim_end_noop(trim_start_ws(s) + tail);
    } else {
        assert(s.len() == 0);
        assert(trim_start_ws(tail) == tail);
        lemma_trim_end_noop(tail);
        assert(trim_ws(s) == Seq::<char>::empty());
        assert(Seq::<char>::empty() + tail =~= tail);
    }
}

/// A trailing slash leaves the host part of an address unchanged, unless
/// white space stands right before it.
proof fn lemma_host_ignores_trailing_slash(value: Seq<char>)
    requires
        value.len() == 0 || !is_white_space(value.last()),
    ensures
        onion_host(value + seq!['/']) == onion_host(value),
{
    let slash = seq!['/'];
    lemma_trim_with_tail(value, slash);
    let x = trim_ws(value);
    assert((x + slash).drop_last() =~= x);
    assert(trim_end_char(x + slash, '/') == trim_end_char(x, '/'));
}

/// The host part of an address that ends in neither white space nor a
/// slash is the address trimmed; a `.onion` after it stays on its host part.
proof fn lemma_host_with_onion_suffix(value: Seq<char>)
    requires
        value.len() == 0 || (!is_white_space(value.last()) && value.last() != '/'),
    ensures
        onion_host(value) == trim_ws(value),
        onion_host(value + onion_suffix()) == trim_ws(value) + onion_suffix(),
{
    let sfx = onion_suffix();
    lemma_trim_with_tail(value, sfx);
    let x = trim_ws(value);
    lemma_trim_start_last(value);
    assert(x.len() > 0 ==> x.last() == value.last()) by {
        if x.len() > 0 {
            lemma_trim_end_noop(trim_start_ws(value));
        }
    }
    assert(trim_end_char(x + sfx, '/') == x + sfx);
    assert(trim_end_char(x, '/') == x);
}

/// A trailing `.onion` on an already lower-cased host makes no difference
/// to how it is finished.
proof fn lemma_finish_ignores_onion_suffix(l: Seq<char>)
    ensures
        onion_from_lowercase(l + onion_suffix()) == onion_from_lowercase(l),
{
    let sfx = onion_suffix();
    assert((l + sfx).subrange((l + sfx).len() - 6, (l + sfx).len() as int) =~= sfx);
    assert((l + sfx).subrange(0, (l + sfx).len() - 6) =~= l);
    assert(strip_onion_suffixes(l + sfx) == strip_onion_suffixes(l));
}

/// A trailing slash makes no difference to normalisation, unless white
/// space stands right before it.
pub proof fn lemma_normalize_ignores_trailing_slash(value: Seq<char>)
    requires
        value.len() == 0 || !is_white_space(value.last()),
    ensures
        normalized_onion(value + seq!['/']) == normalized_onion(value),
{
    lemma_host_ignores_trailing_slash(value);
}

/// A trailing `.onion` makes no difference to normalisation of an address
/// that does not end in white space or a slash, provided lower-casing the
/// address with the suffix gives its lower-cased form followed by the
/// suffix.
pub proof fn lemma_normalize_ignores_onion_suffix(value: Seq<char>)
    requires
        value.len() == 0 || (!is_white_space(value.last()) && value.last() != '/'),
        unicode_lowercase(trim_ws(value) + onion_suffix()) == unicode_lowercase(trim_ws(value))
            + onion_suffix(),
    ensures
        normalized_onion(value + onion_suffix()) == normalized_onion(value),
{
    lemma_host_with_onion_suffix(value);
    lemma_finish_ignores_onion_suffix(unicode_lowercase(trim_ws(value)));
}

/// Finishing is idempotent: a finished host is finished already.
pub proof fn lemma_finish_onion_idempotent(l: Seq<char>)
    ensures
        onion_from_lowercase(onion_from_lowercase(l)) == onion_from_lowercase(l),
{
    let core = strip_onion_suffixes(l);
    lemma_stripped_has_no_suffix(l);
    if core.len() > 0 {
        lemma_finish_ignores_onion_suffix(core);
    }
}

/// `f` maps white space to white space, everything else to something else,
/// and only `/` to `/`.
pub open spec fn keeps_separators(f: spec_fn(char) -> char) -> bool {
    forall|c: char|
        #![trigger f(c)]
        is_white_space(f(c)) == is_white_space(c) && (f(c) == '/') == (c == '/')
}

/// Leading white space is trimmed alike before and after such a mapping.
proof fn lemma_trim_start_map(s: Seq<char>, f: spec_fn(char) -> char)
    requires
        keeps_separators(f),
    ensures
        trim_start_ws(s.map_values(f)) == trim_start_ws(s).map_values(f),
    decreases s.len(),
{
    if s.len() > 0 {
        assert(s.map_values(f)[0] == f(s[0]));
        if is_white_space(s[0]) {
            assert(s.map_values(f).drop_first() =~= s.drop_first().map_values(f));
            lemma_trim_start_map(s.drop_first(), f);
        }
    }
}

/// Trailing white space is trimmed alike before and after such a mapping.
proof fn lemma_trim_end_map(s: Seq<char>, f: spec_fn(char) -> char)
    requires
        keeps_separators(f),
    ensures
        trim_end_ws(s.map_values(f)) == trim_end_ws(s).map_values(f),
    decreases s.len(),
{
    if s.len() > 0 {
        assert(s.map_values(f).last() == f(s.last()));
        if is_white_space(s.last()) {
            assert(s.map_values(f).drop_last() =~= s.drop_last().map_values(f));
            lemma_trim_end_map(s.drop_last(), f);
        }
    }
}

/// Trailing slashes are removed alike before and after such a mapping.
proof fn lemma_trim_slash_map(s: Seq<char>, f: spec_fn(char) -> char)
    requires
        keeps_separators(f),
    ensures
        trim_end_char(s.map_values(f), '/') == trim_end_char(s, '/').map_values(f),
    decreases s.len(),
{
    if s.len() > 0 {
        assert(s.map_values(f).last() == f(s.last()));
        if s.last() == '/' {
            assert(s.map_values(f).drop_last() =~= s.drop_last().map_values(f));
            lemma_trim_slash_map(s.drop_last(), f);
        }
    }
}

/// The host part of a mapped address is the mapped host part.
proof fn lemma_host_map(value: Seq<char>, f: spec_fn(char) -> char)
    requires
        keeps_separators(f),
    ensures
        onion_host(value.map_values(f)) == onion_host(value).map_values(f),
{
    lemma_trim_start_map(value, f);
    lemma_trim_end_map(trim_start_ws(value), f);
    lemma_trim_slash_map(trim_ws(value), f);
}

/// What `strip_onion_suffixes` leaves is a prefix of its argument.
proof fn lemma_strip_is_prefix(s: Seq<char>)
    ensures
        strip_onion_suffixes(s).len() <= s.len(),
        strip_onion_suffixes(s) == s.subrange(0, strip_onion_suffixes(s).len() as int),
    decreases s.len(),
{
    if ends_with_onion(s) {
        let t = s.subrange(0, s.len() - 6);
        lemma_strip_is_prefix(t);
        let k = strip_onion_suffixes(t).len() as int;
        assert(t.subrange(0, k) =~= s.subrange(0, k));
    } else {
        assert(s.subrange(0, s.len() as int) =~= s);
    }
}

/// What trimming leading white space leaves is a suffix of its argument.
proof fn lemma_trim_start_suffix(s: Seq<char>)
    ensures
        trim_start_ws(s).len() <= s.len(),
        trim_start_ws(s) == s.subrange(s.len() - trim_start_ws(s).len(), s.len() as int),
    decreases s.len(),
{
    if s.len() > 0 && is_white_space(s[0]) {
        lemma_trim_start_suffix(s.drop_first());
        let k = trim_start_ws(s).len() as int;
        assert(s.drop_first().subrange(s.len() - 1 - k, s.len() - 1) =~= s.subrange(
            s.len() - k,
            s.len() as int,
        ));
    } else {
        assert(s.subrange(0, s.len() as int) =~= s);
    }
}

proof fn lemma_trim_start_first(s: Seq<char>)
    ensures
        trim_start_ws(s).len() > 0 ==> !is_white_space(trim_start_ws(s)[0]),
    decreases s.len(),
{
    if s.len() > 0 && is_white_space(s[0]) {
        lemma_trim_start_first(s.drop_first());
    }
}

proof fn lemma_trim_end_ws_prefix(s: Seq<char>)
    ensures
        trim_end_ws(s).len() <= s.len(),
        trim_end_ws(s) == s.subrange(0, trim_end_ws(s).len() as int),
    decreases s.len(),
{
    if s.len() > 0 && is_white_space(s.last()) {
        lemma_trim_end_ws_prefix(s.drop_last());
        let k = trim_end_ws(s).len() as int;
        assert(s.drop_last().subrange(0, k) =~= s.subrange(0, k));
    } else {
        assert(s.subrange(0, s.len() as int) =~= s);
    }
}

proof fn lemma_trim_end_slash_prefix(s: Seq<char>)
    ensures
        trim_end_char(s, '/').len() <= s.len(),
        trim_end_char(s, '/') == s.subrange(0, trim_end_char(s, '/').len() as int),
    decreases s.len(),
{
    if s.len() > 0 && s.last() == '/' {
        lemma_trim_end_slash_prefix(s.drop_last());
        let k = trim_end_char(s, '/').len() as int;
        assert(s.drop_last().subrange(0, k) =~= s.subrange(0, k));
    } else {
        assert(s.subrange(0, s.len() as int) =~= s);
    }
}

/// ASCII lower- and upper-casing keep white space and slashes.
proof fn lemma_ascii_case_keeps_separators()
    ensures
        keeps_separators(|c: char| ascii_lower_char(c)),
        keeps_separators(|c: char| ascii_upper_char(c)),
{
    assert forall|c: char| #![trigger ascii_lower_char(c)]
        is_white_space(ascii_lower_char(c)) == is_white_space(c) && (ascii_lower_char(c) == '/')
            == (c == '/') by {
        lemma_ascii_case_char(c);
    }
    assert forall|c: char| #![trigger ascii_upper_char(c)]
        is_white_space(ascii_upper_char(c)) == is_white_space(c) && (ascii_upper_char(c) == '/')
            == (c == '/') by {
        lemma_ascii_case_char(c);
    }
}

/// Normalising an ASCII address twice gives what normalising it once does,
/// and what it gives is ASCII again.
pub proof fn lemma_ascii_normalize_idempotent(value: Seq<char>)
    requires
        is_ascii_text(value),
    ensures
        is_ascii_text(ascii_normalized_onion(value)),
        ascii_normalized_onion(ascii_normalized_onion(value)) == ascii_normalized_onion(value),
{
    let h = onion_host(value);
    let l = ascii_lowercase(h);
    let core = strip_onion_suffixes(l);
    let y = ascii_normalized_onion(value);
    let sfx = onion_suffix();
    lemma_strip_is_prefix(l);
    lemma_trim_start_first(value);
    lemma_trim_end_ws_prefix(trim_start_ws(value));
    lemma_trim_end_slash_prefix(trim_ws(value));
    lemma_finish_onion_idempotent(l);
    assert(is_ascii_text(h)) by {
        assert forall|k: int| 0 <= k < h.len() implies (#[trigger] h[k] as u32) < 128 by {
            let t = trim_start_ws(value);
            lemma_trim_start_suffix(value);
            assert(h[k] == trim_ws(value)[k]);
            assert(trim_ws(value)[k] == t[k]);
            assert(t[k] == value[value.len() - t.len() + k]);
        }
    }
    assert forall|k: int| 0 <= k < core.len() implies #[trigger] ascii_lower_char(core[k])
        == core[k] && (core[k] as u32) < 128 by {
        assert(core[k] == l[k]);
        lemma_ascii_case_char(h[k]);
    }
    if core.len() == 0 {
        assert(y == Seq::<char>::empty());
        assert(ascii_lowercase(onion_host(y)) =~= Seq::<char>::empty());
    } else {
        assert(y == core + sfx);
        assert(y.last() == 'n');
        lemma_ascii_case_char(h[0]);
        assert(!is_white_space(y[0]));
        assert(trim_start_ws(y) == y);
        assert(trim_end_ws(y) == y);
        assert(trim_end_char(y, '/') == y);
        assert(onion_host(y) == y);
        assert(ascii_lowercase(y) =~= y) by {
            assert forall|k: int| 0 <= k < y.len() implies #[trigger] ascii_lower_char(y[k])
                == y[k] by {
                if k < core.len() {
                    assert(y[k] == core[k]);
                }
            }
        }
    }
}

/// Letter case makes no difference to normalising an ASCII address:
/// capitalising it first gives the same normal form, and capitalising keeps
/// it ASCII.
pub proof fn lemma_ascii_normalize_ignores_case(value: Seq<char>)
    requires
        is_ascii_text(value),
    ensures
        is_ascii_text(ascii_uppercase(value)),
        ascii_normalized_onion(ascii_uppercase(value)) == ascii_normalized_onion(value),
{
    let up = |c: char| ascii_upper_char(c);
    lemma_ascii_case_keeps_separators();
    assert(ascii_uppercase(value) =~= value.map_values(up));
    lemma_host_map(value, up);
    let h = onion_host(value);
    assert(ascii_lowercase(h.map_values(up)) =~= ascii_lowercase(h)) by {
        assert forall|k: int| 0 <= k < h.len() implies #[trigger] ascii_lower_char(
            ascii_upper_char(h[k]),
        ) == ascii_lower_char(h[k]) by {
            lemma_ascii_case_char(h[k]);
        }
    }
    assert forall|k: int| 0 <= k < value.len() implies (#[trigger] ascii_uppercase(value)[k]
        as u32) < 128 by {
        lemma_ascii_case_char(value[k]);
    }
}

/// A trailing slash makes no difference to normalising an ASCII address,
/// unless white space stands right before it.
pub proof fn lemma_ascii_normalize_ignores_trailing_slash(value: Seq<char>)
    requires
        is_ascii_text(value),
        value.len() == 0 || !is_white_space(value.last()),
    ensures
        is_ascii_text(value + seq!['/']),
        ascii_normalized_onion(value + seq!['/']) == ascii_normalized_onion(value),
{
    lemma_host_ignores_trailing_slash(value);
    assert forall|k: int| 0 <= k < value.len() + 1 implies ((#[trigger] (value + seq!['/'])[k])
        as u32) < 128 by {
        if k < value.len() {
            assert((value + seq!['/'])[k] == value[k]);
        }
    }
}

/// A trailing `.onion` makes no difference to normalising an ASCII address
/// that ends in neither white space nor a slash.
pub proof fn lemma_ascii_normalize_ignores_onion_suffix(value: Seq<char>)
    requires
        is_ascii_text(value),
        value.len() == 0 || (!is_white_space(value.last()) && value.last() != '/'),
    ensures
        is_ascii_text(value + onion_suffix()),
        ascii_normalized_onion(value + onion_suffix()) == ascii_normalized_onion(value),
{
    let sfx = onion_suffix();
    let x = trim_ws(value);
    lemma_host_with_onion_suffix(value);
    assert(ascii_lowercase(x + sfx) =~= ascii_lowercase(x) + sfx) by {
        assert forall|k: int| 0 <= k < sfx.len() implies #[trigger] ascii_lower_char(sfx[k])
            == sfx[k] by {
            lemma_ascii_case_char(sfx[k]);
        }
        assert forall|k: int| 0 <= k < x.len() + 6 implies #[trigger] ascii_lowercase(x + sfx)[k]
            == (ascii_lowercase(x) + sfx)[k] by {
            if k >= x.len() {
                assert((x + sfx)[k] == sfx[k - x.len()]);
            }
        }
    }
    lemma_finish_ignores_onion_suffix(ascii_lowercase(x));
    assert forall|k: int| 0 <= k < value.len() + 6 implies ((#[trigger] (value + sfx)[k])
        as u32) < 128 by {
        if k < value.len() {
            assert((value + sfx)[k] == value[k]);
        }
    }
}

} // verus!
