//! Character-sequence helpers on which the browser, routing and picker logic
//! is built. Strings are modelled by their views, sequences of `char`.
use vstd::prelude::*;
use crate::trusted::{push_char};

verus! {

/// The characters with the Unicode `White_Space` property, as the Unicode
/// Character Database lists them in `PropList.txt`: the ASCII controls from
/// tab to carriage return, space, next line, no-break space, the Ogham space
/// mark, the spaces from en quad to hair space, the line and paragraph
/// separators, the narrow no-break space, the medium mathematical space and
/// the ideographic space. These are the characters for which
/// `char::is_whitespace` answers true.
pub open spec fn is_unicode_whitespace(c: char) -> bool {
    ('\u{9}' <= c && c <= '\u{D}') || c == ' ' || c == '\u{85}' || c == '\u{A0}' || c
        == '\u{1680}' || ('\u{2000}' <= c && c <= '\u{200A}') || c == '\u{2028}' || c
        == '\u{2029}' || c == '\u{202F}' || c == '\u{205F}' || c == '\u{3000}'
}

/// Whether the character has the Unicode `White_Space` property, as
/// `char::is_whitespace` answers.
pub fn char_is_whitespace(c: char) -> (r: bool)
    ensures
        r == is_unicode_whitespace(c),
{
    ('\u{9}' <= c && c <= '\u{D}') || c == ' ' || c == '\u{85}' || c == '\u{A0}' || c
        == '\u{1680}' || ('\u{2000}' <= c && c <= '\u{200A}') || c == '\u{2028}' || c
        == '\u{2029}' || c == '\u{202F}' || c == '\u{205F}' || c == '\u{3000}'
}

/// ASCII lower-casing of one character, as `char::to_ascii_lowercase` does it.
pub open spec fn ascii_lower(c: char) -> char {
    if 'A' <= c && c <= 'Z' {
        ((c as int) + 32) as char
    } else {
        c
    }
}

/// ASCII lower-casing of a whole sequence.
pub open spec fn ascii_lower_seq(s: Seq<char>) -> Seq<char> {
    s.map_values(|c: char| ascii_lower(c))
}

/// Every character is ASCII.
pub open spec fn all_ascii(s: Seq<char>) -> bool {
    forall|i: int| 0 <= i < s.len() ==> #[trigger] s[i] <= '\u{7F}'
}

/// No character is an ASCII capital.
pub open spec fn no_ascii_capitals(s: Seq<char>) -> bool {
    forall|i: int| 0 <= i < s.len() ==> !('A' <= #[trigger] s[i] && s[i] <= 'Z')
}

/// Two sequences are an ASCII case-insensitive match.
pub open spec fn eq_ignore_ascii_case_spec(a: Seq<char>, b: Seq<char>) -> bool {
    ascii_lower_seq(a) == ascii_lower_seq(b)
}

pub open spec fn starts_with(s: Seq<char>, p: Seq<char>) -> bool {
    p.len() <= s.len() && s.subrange(0, p.len() as int) == p
}

pub open spec fn ends_with(s: Seq<char>, p: Seq<char>) -> bool {
    p.len() <= s.len() && s.subrange(s.len() - p.len(), s.len() as int) == p
}

/// `p` occurs in `s` starting at index `i`.
pub open spec fn occurs_at(s: Seq<char>, p: Seq<char>, i: int) -> bool {
    0 <= i && i + p.len() <= s.len() && s.subrange(i, i + p.len()) == p
}

/// `p` occurs somewhere in `s` (the empty sequence occurs in every sequence).
pub open spec fn contains_seq(s: Seq<char>, p: Seq<char>) -> bool {
    exists|i: int| occurs_at(s, p, i)
}

/// `c` occurs in `s`.
pub open spec fn has_char(s: Seq<char>, c: char) -> bool {
    exists|i: int| 0 <= i < s.len() && s[i] == c
}

/// Every occurrence of `from` replaced by `to`.
pub open spec fn replace_char_spec(s: Seq<char>, from: char, to: char) -> Seq<char> {
    s.map_values(|c: char| if c == from { to } else { c })
}

/// Leading characters that satisfy `p` removed.
pub open spec fn trim_start_by(s: Seq<char>, p: spec_fn(char) -> bool) -> Seq<char>
    decreases s.len(),
{
    if s.len() > 0 && p(s[0]) {
        trim_start_by(s.drop_first(), p)
    } else {
        s
    }
}

/// Trailing characters that satisfy `p` removed.
pub open spec fn trim_end_by(s: Seq<char>, p: spec_fn(char) -> bool) -> Seq<char>
    decreases s.len(),
{
    if s.len() > 0 && p(s.last()) {
        trim_end_by(s.drop_last(), p)
    } else {
        s
    }
}

/// Leading and trailing characters that satisfy `p` removed.
pub open spec fn trim_by(s: Seq<char>, p: spec_fn(char) -> bool) -> Seq<char> {
    trim_end_by(trim_start_by(s, p), p)
}

/// What `str::trim` gives back: leading and trailing Unicode whitespace removed.
pub open spec fn trim_spec(s: Seq<char>) -> Seq<char> {
    trim_by(s, |c: char| is_unicode_whitespace(c))
}

/// What `str::trim_start_matches` gives back for a string pattern `p`:
/// `p` removed from the front as many times as it occurs there.
pub open spec fn strip_prefix_repeated(s: Seq<char>, p: Seq<char>) -> Seq<char>
    decreases s.len(),
{
    if p.len() > 0 && starts_with(s, p) {
        strip_prefix_repeated(s.subrange(p.len() as int, s.len() as int), p)
    } else {
        s
    }
}

/// Lexicographic order on character sequences, by code point (the order
/// of `String`'s `Ord`).
pub open spec fn lex_lt(a: Seq<char>, b: Seq<char>) -> bool
    decreases a.len(),
{
    if b.len() == 0 {
        false
    } else if a.len() == 0 {
        true
    } else if (a[0] as int) < (b[0] as int) {
        true
    } else if (a[0] as int) > (b[0] as int) {
        false
    } else {
        lex_lt(a.drop_first(), b.drop_first())
    }
}

/// The sequence of characters of a string slice.
pub fn chars_of(s: &str) -> (v: Vec<char>)
    ensures
        v@ == s@,
{
    let mut v: Vec<char> = Vec::new();
    for c in it: s.chars()
        invariant
            v@ == it.seq().take(it.index() as int),
    {
        v.push(c);
    }
    v
}

/// A string made of the characters of `v`.
pub fn string_from_chars(v: &Vec<char>) -> (s: String)
    ensures
        s@ == v@,
{
    let mut s = String::new();
    let mut i: usize = 0;
    while i < v.len()
        invariant
            i <= v.len(),
            s@ == v@.take(i as int),
        decreases v.len() - i,
    {
        push_char(&mut s, v[i]);
        assert(v@.take(i + 1) == v@.take(i as int).push(v@[i as int]));
        i = i + 1;
    }
    assert(v@.take(v.len() as int) == v@);
    s
}

/// A copy of an optional string.
pub fn copy_opt_string(s: &Option<String>) -> (r: Option<String>)
    ensures
        r.deep_view() == s.deep_view(),
{
    match s {
        Some(v) => Some(v.clone()),
        None => None,
    }
}

/// A string made of a string slice.
pub fn owned(s: &str) -> (r: String)
    ensures
        r@ == s@,
{
    String::from_str(s)
}

/// `to_ascii_lowercase` on one character.
pub fn char_ascii_lower(c: char) -> (r: char)
    ensures
        r == ascii_lower(c),
{
    if 'A' <= c && c <= 'Z' {
        let code: u32 = c as u32;
        assert(65 <= code <= 90);
        let lowered: u8 = (code + 32) as u8;
        lowered as char
    } else {
        c
    }
}

/// Two strings are equal up to ASCII case (`str::eq_ignore_ascii_case`).
pub fn eq_ignore_ascii_case(a: &Vec<char>, b: &Vec<char>) -> (r: bool)
    ensures
        r == eq_ignore_ascii_case_spec(a@, b@),
{
    if a.len() != b.len() {
        assert(ascii_lower_seq(a@).len() != ascii_lower_seq(b@).len());
        return false;
    }
    let mut i: usize = 0;
    while i < a.len()
        invariant
            a.len() == b.len(),
            i <= a.len(),
            forall|k: int| 0 <= k < i ==> ascii_lower(a@[k]) == ascii_lower(b@[k]),
        decreases a.len() - i,
    {
        if char_ascii_lower(a[i]) != char_ascii_lower(b[i]) {
            assert(ascii_lower_seq(a@)[i as int] != ascii_lower_seq(b@)[i as int]);
            return false;
        }
        i = i + 1;
    }
    assert(ascii_lower_seq(a@) =~= ascii_lower_seq(b@));
    true
}

/// Equality of two character sequences.
pub fn chars_equal(a: &Vec<char>, b: &Vec<char>) -> (r: bool)
    ensures
        r == (a@ == b@),
{
    if a.len() != b.len() {
        return false;
    }
    let mut i: usize = 0;
    while i < a.len()
        invariant
            a.len() == b.len(),
            i <= a.len(),
            forall|k: int| 0 <= k < i ==> a@[k] == b@[k],
        decreases a.len() - i,
    {
        if a[i] != b[i] {
            return false;
        }
        i = i + 1;
    }
    assert(a@ =~= b@);
    true
}

/// Whether `p` occurs in `s` at index `i`.
pub fn occurs_at_exec(s: &Vec<char>, p: &Vec<char>, i: usize) -> (r: bool)
    ensures
        r == occurs_at(s@, p@, i as int),
{
    if i > s.len() || p.len() > s.len() - i {
        return false;
    }
    let mut k: usize = 0;
    while k < p.len()
        invariant
            i + p.len() <= s.len(),
            k <= p.len(),
            forall|j: int| 0 <= j < k ==> s@[i + j] == p@[j],
        decreases p.len() - k,
    {
        if s[i + k] != p[k] {
            assert(s@.subrange(i as int, i + p.len())[k as int] != p@[k as int]);
            return false;
        }
        k = k + 1;
    }
    assert(s@.subrange(i as int, i + p.len()) =~= p@);
    true
}

/// The first index at which `p` occurs in `s` (`str::find`).
pub fn find_seq(s: &Vec<char>, p: &Vec<char>) -> (r: Option<usize>)
    ensures
        match r {
            Some(i) => occurs_at(s@, p@, i as int) && forall|j: int|
                0 <= j < i ==> !occurs_at(s@, p@, j),
            None => !contains_seq(s@, p@),
        },
{
    if p.len() > s.len() {
        return None;
    }
    let last: usize = s.len() - p.len();
    let mut i: usize = 0;
    loop
        invariant
            last == s.len() - p.len(),
            p.len() <= s.len(),
            i <= last,
            forall|j: int| 0 <= j < i ==> !occurs_at(s@, p@, j),
        decreases last - i,
    {
        if occurs_at_exec(s, p, i) {
            return Some(i);
        }
        if i == last {
            assert forall|j: int| !occurs_at(s@, p@, j) by {
                if 0 <= j <= i {
                }
            }
            return None;
        }
        i = i + 1;
    }
}

/// Whether `p` occurs somewhere in `s` (`str::contains`).
pub fn contains_exec(s: &Vec<char>, p: &Vec<char>) -> (r: bool)
    ensures
        r == contains_seq(s@, p@),
{
    match find_seq(s, p) {
        Some(i) => {
            assert(occurs_at(s@, p@, i as int));
            true
        },
        None => false,
    }
}

/// Whether `s` starts with `p`.
pub fn starts_with_exec(s: &Vec<char>, p: &Vec<char>) -> (r: bool)
    ensures
        r == starts_with(s@, p@),
{
    let r = occurs_at_exec(s, p, 0);
    assert(r == starts_with(s@, p@));
    r
}

/// Whether `s` ends with `p`.
pub fn ends_with_exec(s: &Vec<char>, p: &Vec<char>) -> (r: bool)
    ensures
        r == ends_with(s@, p@),
{
    if p.len() > s.len() {
        return false;
    }
    occurs_at_exec(s, p, s.len() - p.len())
}

/// Every occurrence of `from` replaced by `to` (`str::replace` with two characters).
pub fn replace_char(s: &Vec<char>, from: char, to: char) -> (r: Vec<char>)
    ensures
        r@ == replace_char_spec(s@, from, to),
{
    let mut r: Vec<char> = Vec::new();
    let mut i: usize = 0;
    while i < s.len()
        invariant
            i <= s.len(),
            r@ == replace_char_spec(s@.take(i as int), from, to),
        decreases s.len() - i,
    {
        let c = s[i];
        if c == from {
            r.push(to);
        } else {
            r.push(c);
        }
        assert(replace_char_spec(s@.take(i + 1), from, to) =~= replace_char_spec(
            s@.take(i as int),
            from,
            to,
        ).push(if c == from { to } else { c }));
        i = i + 1;
    }
    assert(s@.take(s.len() as int) =~= s@);
    r
}

/// ASCII lower-casing of a whole sequence (`str::to_ascii_lowercase`).
pub fn ascii_lowercase(s: &Vec<char>) -> (r: Vec<char>)
    ensures
        r@ == ascii_lower_seq(s@),
{
    let mut r: Vec<char> = Vec::new();
    let mut i: usize = 0;
    while i < s.len()
        invariant
            i <= s.len(),
            r@ == ascii_lower_seq(s@.take(i as int)),
        decreases s.len() - i,
    {
        let c = char_ascii_lower(s[i]);
        r.push(c);
        assert(ascii_lower_seq(s@.take(i + 1)) =~= ascii_lower_seq(s@.take(i as int)).push(c));
        i = i + 1;
    }
    assert(s@.take(s.len() as int) =~= s@);
    r
}

/// The characters of `s` from `start` (inclusive) to `end` (exclusive).
pub fn slice_chars(s: &Vec<char>, start: usize, end: usize) -> (r: Vec<char>)
    requires
        start <= end <= s.len(),
    ensures
        r@ == s@.subrange(start as int, end as int),
{
    let mut r: Vec<char> = Vec::new();
    let mut i: usize = start;
    while i < end
        invariant
            start <= i <= end <= s.len(),
            r@ == s@.subrange(start as int, i as int),
        decreases end - i,
    {
        r.push(s[i]);
        assert(s@.subrange(start as int, i + 1) =~= s@.subrange(start as int, i as int).push(
            s@[i as int],
        ));
        i = i + 1;
    }
    r
}

/// `a` followed by `b`.
pub fn concat_chars(a: &Vec<char>, b: &Vec<char>) -> (r: Vec<char>)
    ensures
        r@ == a@ + b@,
{
    let mut r: Vec<char> = Vec::new();
    let mut i: usize = 0;
    while i < a.len()
        invariant
            i <= a.len(),
            r@ == a@.take(i as int),
        decreases a.len() - i,
    {
        r.push(a[i]);
        assert(a@.take(i + 1) =~= a@.take(i as int).push(a@[i as int]));
        i = i + 1;
    }
    let mut j: usize = 0;
    while j < b.len()
        invariant
            i == a.len(),
            j <= b.len(),
            r@ == a@ + b@.take(j as int),
        decreases b.len() - j,
    {
        r.push(b[j]);
        assert(a@ + b@.take(j + 1) =~= (a@ + b@.take(j as int)).push(b@[j as int]));
        j = j + 1;
    }
    assert(a@.take(a.len() as int) =~= a@);
    assert(b@.take(b.len() as int) =~= b@);
    r
}

proof fn lemma_trim_start_by_is_suffix(s: Seq<char>, p: spec_fn(char) -> bool)
    ensures
        exists|i: int|
            0 <= i <= s.len() && trim_start_by(s, p) == s.subrange(i, s.len() as int),
    decreases s.len(),
{
    if s.len() > 0 && p(s[0]) {
        lemma_trim_start_by_is_suffix(s.drop_first(), p);
        let i = choose|i: int|
            0 <= i <= s.drop_first().len() && trim_start_by(s.drop_first(), p)
                == s.drop_first().subrange(i, s.drop_first().len() as int);
        assert(s.drop_first().subrange(i, s.drop_first().len() as int) =~= s.subrange(
            i + 1,
            s.len() as int,
        ));
    } else {
        assert(s.subrange(0, s.len() as int) =~= s);
    }
}

/// Index-based characterisation of `trim_start_by`.
proof fn lemma_trim_start_at(s: Seq<char>, p: spec_fn(char) -> bool, i: int)
    requires
        0 <= i <= s.len(),
        forall|k: int| 0 <= k < i ==> p(s[k]),
        i == s.len() || !p(s[i]),
    ensures
        trim_start_by(s, p) == s.subrange(i, s.len() as int),
    decreases i,
{
    if i == 0 {
        assert(s.subrange(0, s.len() as int) =~= s);
    } else {
        lemma_trim_start_at(s.drop_first(), p, i - 1);
        assert(s.drop_first().subrange(i - 1, s.len() - 1) =~= s.subrange(i, s.len() as int));
    }
}

/// Index-based characterisation of `trim_end_by`.
proof fn lemma_trim_end_at(s: Seq<char>, p: spec_fn(char) -> bool, j: int)
    requires
        0 <= j <= s.len(),
        forall|k: int| j <= k < s.len() ==> p(s[k]),
        j == 0 || !p(s[j - 1]),
    ensures
        trim_end_by(s, p) == s.subrange(0, j),
    decreases s.len() - j,
{
    if j == s.len() {
        assert(s.subrange(0, s.len() as int) =~= s);
    } else {
        lemma_trim_end_at(s.drop_last(), p, j);
        assert(s.drop_last().subrange(0, j) =~= s.subrange(0, j));
    }
}

/// `s` with leading and trailing characters equal to `c` removed
/// (`str::trim_matches` with a character).
pub fn trim_char(s: &Vec<char>, c: char) -> (r: Vec<char>)
    ensures
        r@ == trim_by(s@, |x: char| x == c),
{
    let ghost p = |x: char| x == c;
    let mut i: usize = 0;
    while i < s.len()
        invariant
            i <= s.len(),
            forall|k: int| 0 <= k < i ==> s@[k] == c,
        ensures
            i <= s.len(),
            forall|k: int| 0 <= k < i ==> s@[k] == c,
            i == s.len() || s@[i as int] != c,
        decreases s.len() - i,
    {
        if s[i] != c {
            break;
        }
        i = i + 1;
    }
    proof {
        lemma_trim_start_at(s@, p, i as int);
    }
    let mut j: usize = s.len();
    while j > i
        invariant
            i <= j <= s.len(),
            forall|k: int| j <= k < s.len() ==> s@[k] == c,
        ensures
            i <= j <= s.len(),
            forall|k: int| j <= k < s.len() ==> s@[k] == c,
            j == i || s@[j - 1] != c,
        decreases j - i,
    {
        if s[j - 1] != c {
            break;
        }
        j = j - 1;
    }
    let r = slice_chars(s, i, j);
    proof {
        let t = s@.subrange(i as int, s@.len() as int);
        assert forall|k: int| (j - i) <= k < t.len() implies p(t[k]) by {
            assert(t[k] == s@[i + k]);
        }
        if j > i {
            assert(t[j - i - 1] == s@[j - 1]);
        }
        lemma_trim_end_at(t, p, j - i);
        assert(t.subrange(0, j - i) =~= s@.subrange(i as int, j as int));
    }
    r
}

/// `s` with leading and trailing Unicode whitespace removed (`str::trim`).
pub fn trim(s: &Vec<char>) -> (r: Vec<char>)
    ensures
        r@ == trim_spec(s@),
{
    let ghost p = |x: char| is_unicode_whitespace(x);
    let mut i: usize = 0;
    while i < s.len()
        invariant
            i <= s.len(),
            forall|k: int| 0 <= k < i ==> is_unicode_whitespace(s@[k]),
        ensures
            i <= s.len(),
            forall|k: int| 0 <= k < i ==> is_unicode_whitespace(s@[k]),
            i == s.len() || !is_unicode_whitespace(s@[i as int]),
        decreases s.len() - i,
    {
        if !char_is_whitespace(s[i]) {
            break;
        }
        i = i + 1;
    }
    proof {
        lemma_trim_start_at(s@, p, i as int);
    }
    let mut j: usize = s.len();
    while j > i
        invariant
            i <= j <= s.len(),
            forall|k: int| j <= k < s.len() ==> is_unicode_whitespace(s@[k]),
        ensures
            i <= j <= s.len(),
            forall|k: int| j <= k < s.len() ==> is_unicode_whitespace(s@[k]),
            j == i || !is_unicode_whitespace(s@[j - 1]),
        decreases j - i,
    {
        if !char_is_whitespace(s[j - 1]) {
            break;
        }
        j = j - 1;
    }
    let r = slice_chars(s, i, j);
    proof {
        let t = s@.subrange(i as int, s@.len() as int);
        assert forall|k: int| (j - i) <= k < t.len() implies p(t[k]) by {
            assert(t[k] == s@[i + k]);
        }
        if j > i {
            assert(t[j - i - 1] == s@[j - 1]);
        }
        lemma_trim_end_at(t, p, j - i);
        assert(t.subrange(0, j - i) =~= s@.subrange(i as int, j as int));
    }
    r
}

/// `p` removed from the front of `s` as many times as it occurs there
/// (`str::trim_start_matches` with a string pattern).
pub fn strip_prefix_repeated_exec(s: &Vec<char>, p: &Vec<char>) -> (r: Vec<char>)
    ensures
        r@ == strip_prefix_repeated(s@, p@),
{
    if p.len() == 0 {
        return slice_chars(s, 0, s.len());
    }
    let mut i: usize = 0;
    assert(s@.subrange(0, s.len() as int) =~= s@);
    while i <= s.len() && occurs_at_exec(s, p, i)
        invariant
            p.len() > 0,
            i <= s.len(),
            strip_prefix_repeated(s@.subrange(i as int, s.len() as int), p@)
                == strip_prefix_repeated(s@, p@),
        decreases s.len() - i,
    {
        proof {
            let t = s@.subrange(i as int, s.len() as int);
            assert(t.subrange(0, p.len() as int) =~= s@.subrange(i as int, i + p.len()));
            assert(t.subrange(p.len() as int, t.len() as int) =~= s@.subrange(
                i + p.len(),
                s.len() as int,
            ));
        }
        i = i + p.len();
    }
    proof {
        let t = s@.subrange(i as int, s.len() as int);
        if starts_with(t, p@) {
            assert(t.subrange(0, p.len() as int) =~= s@.subrange(i as int, i + p.len()));
        }
        assert(s@.subrange(0, s.len() as int) =~= s@);
    }
    slice_chars(s, i, s.len())
}

/// Whether `a` comes strictly before `b` in code-point lexicographic order.
pub fn lex_lt_exec(a: &Vec<char>, b: &Vec<char>) -> (r: bool)
    ensures
        r == lex_lt(a@, b@),
{
    let mut i: usize = 0;
    assert(a@.skip(0) =~= a@);
    assert(b@.skip(0) =~= b@);
    while i < a.len() && i < b.len()
        invariant
            i <= a.len(),
            i <= b.len(),
            lex_lt(a@, b@) == lex_lt(a@.skip(i as int), b@.skip(i as int)),
        decreases a.len() - i,
    {
        let x = a[i];
        let y = b[i];
        assert(a@.skip(i as int)[0] == a@[i as int]);
        assert(b@.skip(i as int)[0] == b@[i as int]);
        if x < y {
            return true;
        }
        if x > y {
            return false;
        }
        assert(a@.skip(i as int).drop_first() =~= a@.skip(i + 1));
        assert(b@.skip(i as int).drop_first() =~= b@.skip(i + 1));
        i = i + 1;
    }
    i < b.len()
}

/// The first index in `[i, n)` that satisfies `pred`.
pub open spec fn first_from(i: int, n: int, pred: spec_fn(int) -> bool) -> Option<int>
    decreases n - i,
{
    if i >= n {
        None
    } else if pred(i) {
        Some(i)
    } else {
        first_from(i + 1, n, pred)
    }
}

/// The first index in `[0, n)` that satisfies `pred`.
pub open spec fn first_index(n: int, pred: spec_fn(int) -> bool) -> Option<int> {
    first_from(0, n, pred)
}

proof fn lemma_first_from(a: int, n: int, pred: spec_fn(int) -> bool)
    requires
        a >= 0,
    ensures
        match first_from(a, n, pred) {
            Some(i) => a <= i < n && pred(i) && forall|k: int| a <= k < i ==> !#[trigger] pred(k),
            None => forall|k: int| a <= k < n ==> !#[trigger] pred(k),
        },
    decreases n - a,
{
    if a < n && !pred(a) {
        lemma_first_from(a + 1, n, pred);
    }
}

/// What `first_index` is: the least index that satisfies the predicate.
pub proof fn lemma_first_index(n: int, pred: spec_fn(int) -> bool)
    ensures
        match first_index(n, pred) {
            Some(i) => 0 <= i < n && pred(i) && forall|k: int| 0 <= k < i ==> !#[trigger] pred(k),
            None => forall|k: int| 0 <= k < n ==> !#[trigger] pred(k),
        },
{
    lemma_first_from(0, n, pred);
}

/// Index of the last character of `s` that satisfies `pred`, or -1.
pub open spec fn last_index_where(s: Seq<char>, pred: spec_fn(char) -> bool) -> int
    decreases s.len(),
{
    if s.len() == 0 {
        -1
    } else if pred(s.last()) {
        s.len() - 1
    } else {
        last_index_where(s.drop_last(), pred)
    }
}

pub proof fn lemma_last_index_where(s: Seq<char>, pred: spec_fn(char) -> bool, j: int)
    requires
        -1 <= j < s.len(),
        j >= 0 ==> pred(s[j]),
        forall|k: int| j < k < s.len() ==> !pred(s[k]),
    ensures
        last_index_where(s, pred) == j,
    decreases s.len(),
{
    if s.len() > 0 && j < s.len() - 1 {
        lemma_last_index_where(s.drop_last(), pred, j);
    }
}

/// `a` followed by `b`.
pub fn join2(a: &str, b: &str) -> (r: String)
    ensures
        r@ == a@ + b@,
{
    let mut r = String::from_str(a);
    r.append(b);
    r
}

/// `a`, `b` and `c` one after another.
pub fn join3(a: &str, b: &str, c: &str) -> (r: String)
    ensures
        r@ == a@ + b@ + c@,
{
    let mut r = String::from_str(a);
    r.append(b);
    r.append(c);
    r
}

/// `a` to `e` one after another.
pub fn join5(a: &str, b: &str, c: &str, d: &str, e: &str) -> (r: String)
    ensures
        r@ == a@ + b@ + c@ + d@ + e@,
{
    let mut r = String::from_str(a);
    r.append(b);
    r.append(c);
    r.append(d);
    r.append(e);
    r
}

/// Positions at which `p` occurs in `s`.
pub open spec fn occurs_pred(s: Seq<char>, p: Seq<char>) -> spec_fn(int) -> bool {
    |i: int| occurs_at(s, p, i)
}

/// The first position at which `p` occurs in `s` (what `str::find` gives
/// back, counted in characters).
pub open spec fn first_occurrence(s: Seq<char>, p: Seq<char>) -> Option<int> {
    first_index(s.len() as int + 1, occurs_pred(s, p))
}

/// The first position at which `p` occurs in `s`: see `first_occurrence`.
pub fn find_first(s: &Vec<char>, p: &Vec<char>) -> (r: Option<usize>)
    ensures
        match r {
            Some(i) => first_occurrence(s@, p@) == Some(i as int) && i + p.len() <= s.len(),
            None => first_occurrence(s@, p@) is None,
        },
{
    let r = find_seq(s, p);
    proof {
        let pred = occurs_pred(s@, p@);
        lemma_first_index(s@.len() as int + 1, pred);
        match r {
            Some(i) => {
                assert(pred(i as int));
                match first_occurrence(s@, p@) {
                    Some(k) => {
                        if k < i {
                            assert(!occurs_at(s@, p@, k));
                        }
                        if k > i {
                            assert(!pred(i as int));
                        }
                    },
                    None => {
                        assert(!pred(i as int));
                    },
                }
            },
            None => {
                if let Some(k) = first_occurrence(s@, p@) {
                    assert(occurs_at(s@, p@, k));
                }
            },
        }
    }
    r
}

} // verus!
