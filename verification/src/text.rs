//! Character-level string helpers with specifications over `Seq<char>`.
//!
//! Strings are handled as their character sequences (`s@`); every helper
//! states its result in terms of those sequences.
use vstd::prelude::*;

verus! {

/// Whether `c` has the Unicode `White_Space` property, the predicate behind
/// `char::is_whitespace`: tab to carriage return, space, next line,
/// no-break space, ogham space mark, the spaces from en quad to hair space,
/// the line and paragraph separators, narrow no-break space, medium
/// mathematical space and ideographic space (25 code points).
pub open spec fn is_white(c: char) -> bool {
    let u = c as u32;
    ||| 0x09 <= u <= 0x0D
    ||| u == 0x20
    ||| u == 0x85
    ||| u == 0xA0
    ||| u == 0x1680
    ||| 0x2000 <= u <= 0x200A
    ||| u == 0x2028
    ||| u == 0x2029
    ||| u == 0x202F
    ||| u == 0x205F
    ||| u == 0x3000
}

/// The ASCII characters that `char::is_whitespace` accepts.
pub open spec fn is_ascii_white(c: char) -> bool {
    c == ' ' || c == '\t' || c == '\n' || c == '\r' || c == '\x0B' || c == '\x0C'
}

/// Whether `c` is white space as `char::is_whitespace` reads it: Unicode
/// `White_Space`; within ASCII exactly the space, tab, line feed, vertical
/// tab, form feed and carriage return.
pub(crate) fn char_is_whitespace(c: char) -> (r: bool)
    ensures
        r == is_white(c),
        (c as u32) < 128 ==> (r <==> is_ascii_white(c)),
{
    let u = c as u32;
    (0x09 <= u && u <= 0x0D) || u == 0x20 || u == 0x85 || u == 0xA0 || u == 0x1680 || (0x2000 <= u
        && u <= 0x200A) || u == 0x2028 || u == 0x2029 || u == 0x202F || u == 0x205F || u == 0x3000
}

/// `String::push`: appends one character.
#[verifier::external_body]
pub(crate) fn push_char(s: &mut String, c: char)
    ensures
        final(s)@ == old(s)@.push(c),
{
    s.push(c)
}

/// `String::push_str`: appends a string slice.
#[verifier::external_body]
pub(crate) fn push_str(s: &mut String, t: &str)
    ensures
        final(s)@ == old(s)@ + t@,
{
    s.push_str(t)
}

/// The characters of a string slice, in order.
pub fn chars_of(s: &str) -> (v: Vec<char>)
    ensures
        v@ == s@,
{
    let mut v: Vec<char> = Vec::new();
    for c in it: s.chars()
        invariant
            v@ == it.seq().take(it.index() as int),
            it.seq() == s@,
    {
        v.push(c);
    }
    v
}

/// A string made of the characters `v[from..to]`.
pub fn string_of_range(v: &Vec<char>, from: usize, to: usize) -> (s: String)
    requires
        from <= to <= v.len(),
    ensures
        s@ == v@.subrange(from as int, to as int),
{
    let mut s = String::new();
    let mut i = from;
    while i < to
        invariant
            from <= i <= to <= v.len(),
            s@ == v@.subrange(from as int, i as int),
        decreases to - i,
    {
        push_char(&mut s, v[i]);
        i = i + 1;
        assert(s@ =~= v@.subrange(from as int, i as int));
    }
    s
}

/// A string made of all the characters of `v`.
pub fn string_of(v: &Vec<char>) -> (s: String)
    ensures
        s@ == v@,
{
    let s = string_of_range(v, 0, v.len());
    assert(v@.subrange(0, v@.len() as int) =~= v@);
    s
}

/// An owned copy of a string slice.
pub fn owned(s: &str) -> (r: String)
    ensures
        r@ == s@,
{
    s.to_string()
}

/// The concatenation of two string slices.
pub fn concat2(a: &str, b: &str) -> (r: String)
    ensures
        r@ == a@ + b@,
{
    let mut r = a.to_string();
    push_str(&mut r, b);
    r
}

/// The concatenation of three string slices.
pub fn concat3(a: &str, b: &str, c: &str) -> (r: String)
    ensures
        r@ == a@ + b@ + c@,
{
    let mut r = a.to_string();
    push_str(&mut r, b);
    push_str(&mut r, c);
    r
}

/// Equality of two string slices by their characters.
pub fn str_eq(a: &str, b: &str) -> (r: bool)
    ensures
        r == (a@ == b@),
{
    let x = a.to_string();
    let y = b.to_string();
    x == y
}

// ---------------------------------------------------------------------------
// Trimming

/// `s` without its leading whitespace.
pub open spec fn trim_start_seq(s: Seq<char>) -> Seq<char>
    decreases s.len(),
{
    if s.len() > 0 && is_white(s[0]) {
        trim_start_seq(s.drop_first())
    } else {
        s
    }
}

/// `s` without its trailing whitespace.
pub open spec fn trim_end_seq(s: Seq<char>) -> Seq<char>
    decreases s.len(),
{
    if s.len() > 0 && is_white(s.last()) {
        trim_end_seq(s.drop_last())
    } else {
        s
    }
}

/// `s` without leading and trailing whitespace (what `str::trim` returns).
pub open spec fn trim_seq(s: Seq<char>) -> Seq<char> {
    trim_end_seq(trim_start_seq(s))
}

/// Whether `s` is empty once trimmed.
pub open spec fn is_blank(s: Seq<char>) -> bool {
    trim_seq(s).len() == 0
}

pub proof fn lemma_trim_start_suffix(s: Seq<char>, i: int)
    requires
        0 <= i <= s.len(),
        forall|k: int| 0 <= k < i ==> is_white(#[trigger] s[k]),
        i == s.len() || !is_white(s[i]),
    ensures
        trim_start_seq(s) == s.subrange(i, s.len() as int),
    decreases i,
{
    if i == 0 {
        assert(s.subrange(0, s.len() as int) =~= s);
    } else {
        assert(is_white(s[0]));
        let t = s.drop_first();
        assert forall|k: int| 0 <= k < i - 1 implies is_white(#[trigger] t[k]) by {
            assert(t[k] == s[k + 1]);
        }
        if i < s.len() {
            assert(t[i - 1] == s[i]);
        }
        lemma_trim_start_suffix(t, i - 1);
        assert(t.subrange(i - 1, t.len() as int) =~= s.subrange(i, s.len() as int));
    }
}

proof fn lemma_trim_end_prefix(s: Seq<char>, j: int)
    requires
        0 <= j <= s.len(),
        forall|k: int| j <= k < s.len() ==> is_white(#[trigger] s[k]),
        j == 0 || !is_white(s[j - 1]),
    ensures
        trim_end_seq(s) == s.subrange(0, j),
    decreases s.len() - j,
{
    if j == s.len() {
        assert(s.subrange(0, j) =~= s);
    } else {
        assert(is_white(s.last()));
        let t = s.drop_last();
        assert forall|k: int| j <= k < t.len() implies is_white(#[trigger] t[k]) by {
            assert(t[k] == s[k]);
        }
        if j > 0 {
            assert(t[j - 1] == s[j - 1]);
        }
        lemma_trim_end_prefix(t, j);
        assert(t.subrange(0, j) =~= s.subrange(0, j));
    }
}

/// The bounds `(i, j)` such that `v[i..j]` is `v` trimmed.
pub fn trim_bounds(v: &Vec<char>) -> (r: (usize, usize))
    ensures
        r.0 <= r.1 <= v.len(),
        v@.subrange(r.0 as int, r.1 as int) == trim_seq(v@),
{
    let mut i: usize = 0;
    while i < v.len() && char_is_whitespace(v[i])
        invariant
            i <= v.len(),
            forall|k: int| 0 <= k < i ==> is_white(#[trigger] v@[k]),
        decreases v.len() - i,
    {
        i = i + 1;
    }
    proof {
        lemma_trim_start_suffix(v@, i as int);
    }
    let mut j: usize = v.len();
    while j > i && char_is_whitespace(v[j - 1])
        invariant
            i <= j <= v.len(),
            forall|k: int| j <= k < v.len() ==> is_white(#[trigger] v@[k]),
        decreases j,
    {
        j = j - 1;
    }
    proof {
        let t = v@.subrange(i as int, v@.len() as int);
        assert forall|k: int| j - i <= k < t.len() implies is_white(#[trigger] t[k]) by {
            assert(t[k] == v@[k + i]);
        }
        if j > i {
            assert(t[j - i - 1] == v@[j - 1]);
        }
        lemma_trim_end_prefix(t, j - i);
        assert(t.subrange(0, j - i) =~= v@.subrange(i as int, j as int));
    }
    (i, j)
}

/// `str::trim`, as an owned string.
pub fn trim(s: &str) -> (r: String)
    ensures
        r@ == trim_seq(s@),
{
    let v = chars_of(s);
    let (i, j) = trim_bounds(&v);
    string_of_range(&v, i, j)
}

/// Whether `s` holds only whitespace (or nothing).
pub fn blank(s: &str) -> (r: bool)
    ensures
        r == is_blank(s@),
{
    let v = chars_of(s);
    let (i, j) = trim_bounds(&v);
    i == j
}

// ---------------------------------------------------------------------------
// ASCII case

/// `c` with an ASCII upper-case letter turned to lower case.
pub open spec fn lower_char(c: char) -> char {
    if 'A' <= c <= 'Z' {
        ((c as u32) + 32) as char
    } else {
        c
    }
}

/// `s` with every ASCII upper-case letter turned to lower case
/// (what `str::to_ascii_lowercase` returns).
pub open spec fn lower_seq(s: Seq<char>) -> Seq<char> {
    s.map_values(|c: char| lower_char(c))
}

/// `str::to_ascii_lowercase`.
pub fn ascii_lowercase(s: &str) -> (r: String)
    ensures
        r@ == lower_seq(s@),
{
    let v = chars_of(s);
    let mut r = String::new();
    let mut i: usize = 0;
    while i < v.len()
        invariant
            i <= v.len(),
            v@ == s@,
            r@ == lower_seq(v@.take(i as int)),
        decreases v.len() - i,
    {
        let c = v[i];
        let d = if 'A' <= c && c <= 'Z' {
            ((c as u8) + 32) as char
        } else {
            c
        };
        assert(d == lower_char(c)) by {
            if 'A' <= c && c <= 'Z' {
                assert((c as u8) as u32 == c as u32);
            }
        }
        push_char(&mut r, d);
        assert(lower_seq(v@.take(i + 1)) =~= lower_seq(v@.take(i as int)).push(d));
        i = i + 1;
    }
    assert(v@.take(v@.len() as int) =~= v@);
    r
}

// ---------------------------------------------------------------------------
// Searching

/// Whether `needle` occurs in `hay` at position `i`.
pub open spec fn occurs_at(hay: Seq<char>, needle: Seq<char>, i: int) -> bool {
    0 <= i && i + needle.len() <= hay.len() && hay.subrange(i, i + needle.len()) == needle
}

/// Whether `needle` occurs anywhere in `hay` (what `str::contains` answers).
pub open spec fn contains_seq(hay: Seq<char>, needle: Seq<char>) -> bool {
    exists|i: int| occurs_at(hay, needle, i)
}

/// Whether `hay` begins with `prefix`.
pub open spec fn starts_with_seq(hay: Seq<char>, prefix: Seq<char>) -> bool {
    prefix.len() <= hay.len() && hay.subrange(0, prefix.len() as int) == prefix
}

/// Whether `hay` ends with `suffix`.
pub open spec fn ends_with_seq(hay: Seq<char>, suffix: Seq<char>) -> bool {
    suffix.len() <= hay.len() && hay.subrange(hay.len() - suffix.len(), hay.len() as int)
        == suffix
}

/// Whether `needle` matches `hay` at `i` (both given as vectors).
fn matches_at(hay: &Vec<char>, needle: &Vec<char>, i: usize) -> (r: bool)
    requires
        i + needle.len() <= hay.len(),
    ensures
        r == (hay@.subrange(i as int, i + needle.len()) == needle@),
{
    let mut k: usize = 0;
    while k < needle.len()
        invariant
            k <= needle.len(),
            i + needle.len() <= hay.len(),
            forall|m: int| 0 <= m < k ==> hay@[i + m] == needle@[m],
        decreases needle.len() - k,
    {
        if hay[i + k] != needle[k] {
            assert(hay@.subrange(i as int, i + needle.len())[k as int] != needle@[k as int]);
            return false;
        }
        k = k + 1;
    }
    assert(hay@.subrange(i as int, i + needle.len()) =~= needle@);
    true
}

/// `str::contains` for a string needle.
pub fn contains(hay: &str, needle: &str) -> (r: bool)
    ensures
        r == contains_seq(hay@, needle@),
{
    let h = chars_of(hay);
    let n = chars_of(needle);
    if n.len() > h.len() {
        assert(forall|i: int| !occurs_at(hay@, needle@, i));
        return false;
    }
    if n.len() == 0 {
        assert(occurs_at(hay@, needle@, 0)) by {
            assert(hay@.subrange(0, 0) =~= needle@);
        }
        return true;
    }
    let mut i: usize = 0;
    while i <= h.len() - n.len()
        invariant
            0 < n.len() <= h.len(),
            h@ == hay@,
            n@ == needle@,
            i <= h.len() - n.len() + 1,
            forall|k: int| 0 <= k < i ==> !occurs_at(hay@, needle@, k),
        decreases h.len() - n.len() + 1 - i,
    {
        if matches_at(&h, &n, i) {
            assert(occurs_at(hay@, needle@, i as int));
            return true;
        }
        i = i + 1;
    }
    assert forall|k: int| !occurs_at(hay@, needle@, k) by {
        if 0 <= k && k + needle@.len() <= hay@.len() {
            assert(k < i);
        }
    }
    false
}

/// `i` is the first position where `needle` occurs in `hay`.
pub open spec fn first_occurrence(hay: Seq<char>, needle: Seq<char>, i: int) -> bool {
    occurs_at(hay, needle, i) && forall|k: int| 0 <= k < i ==> !occurs_at(hay, needle, k)
}

/// `str::find` for a string needle, as a character position.
pub fn find(hay: &str, needle: &str) -> (r: Option<usize>)
    ensures
        match r {
            Some(i) => first_occurrence(hay@, needle@, i as int),
            None => !contains_seq(hay@, needle@),
        },
{
    let h = chars_of(hay);
    let n = chars_of(needle);
    if n.len() > h.len() {
        assert(forall|i: int| !occurs_at(hay@, needle@, i));
        return None;
    }
    if n.len() == 0 {
        assert(occurs_at(hay@, needle@, 0)) by {
            assert(hay@.subrange(0, 0) =~= needle@);
        }
        return Some(0);
    }
    let mut i: usize = 0;
    while i <= h.len() - n.len()
        invariant
            0 < n.len() <= h.len(),
            h@ == hay@,
            n@ == needle@,
            i <= h.len() - n.len() + 1,
            forall|k: int| 0 <= k < i ==> !occurs_at(hay@, needle@, k),
        decreases h.len() - n.len() + 1 - i,
    {
        if matches_at(&h, &n, i) {
            assert(occurs_at(hay@, needle@, i as int));
            return Some(i);
        }
        i = i + 1;
    }
    assert forall|k: int| !occurs_at(hay@, needle@, k) by {
        if 0 <= k && k + needle@.len() <= hay@.len() {
            assert(k < i);
        }
    }
    None
}

/// `str::trim_start`, as an owned string.
pub fn trim_start(s: &str) -> (r: String)
    ensures
        r@ == trim_start_seq(s@),
{
    let v = chars_of(s);
    let mut i: usize = 0;
    while i < v.len() && char_is_whitespace(v[i])
        invariant
            i <= v.len(),
            forall|k: int| 0 <= k < i ==> is_white(#[trigger] v@[k]),
        decreases v.len() - i,
    {
        i = i + 1;
    }
    proof {
        lemma_trim_start_suffix(v@, i as int);
    }
    string_of_range(&v, i, v.len())
}

/// `str::starts_with` for a string prefix.
pub fn starts_with(hay: &str, prefix: &str) -> (r: bool)
    ensures
        r == starts_with_seq(hay@, prefix@),
{
    let h = chars_of(hay);
    let p = chars_of(prefix);
    if p.len() > h.len() {
        return false;
    }
    matches_at(&h, &p, 0)
}

/// `str::ends_with` for a string suffix.
pub fn ends_with(hay: &str, suffix: &str) -> (r: bool)
    ensures
        r == ends_with_seq(hay@, suffix@),
{
    let h = chars_of(hay);
    let p = chars_of(suffix);
    if p.len() > h.len() {
        return false;
    }
    matches_at(&h, &p, h.len() - p.len())
}

/// Whether any character of `s` equals `c`.
pub fn has_char(s: &str, c: char) -> (r: bool)
    ensures
        r == s@.contains(c),
{
    let v = chars_of(s);
    let mut i: usize = 0;
    while i < v.len()
        invariant
            i <= v.len(),
            v@ == s@,
            forall|k: int| 0 <= k < i ==> v@[k] != c,
        decreases v.len() - i,
    {
        if v[i] == c {
            return true;
        }
        i = i + 1;
    }
    false
}


// ---------------------------------------------------------------------------
// Splitting and joining

/// The pieces of `s` between occurrences of `sep` (what `str::split` yields
/// for a character separator; always at least one piece).
pub open spec fn split_seq(s: Seq<char>, sep: char) -> Seq<Seq<char>>
    decreases s.len(),
{
    if s.len() == 0 {
        seq![Seq::empty()]
    } else {
        let r = split_seq(s.drop_last(), sep);
        if s.last() == sep {
            r.push(Seq::empty())
        } else {
            r.update(r.len() - 1, r.last().push(s.last()))
        }
    }
}

pub proof fn lemma_split_nonempty(s: Seq<char>, sep: char)
    ensures
        split_seq(s, sep).len() >= 1,
    decreases s.len(),
{
    if s.len() > 0 {
        lemma_split_nonempty(s.drop_last(), sep);
    }
}

/// A text without the separator is one piece.
pub proof fn lemma_split_no_sep(a: Seq<char>, sep: char)
    requires
        !a.contains(sep),
    ensures
        split_seq(a, sep) == seq![a],
    decreases a.len(),
{
    if a.len() > 0 {
        let d = a.drop_last();
        assert(!d.contains(sep)) by {
            if d.contains(sep) {
                let k = choose|k: int| 0 <= k < d.len() && d[k] == sep;
                assert(a[k] == sep);
            }
        }
        lemma_split_no_sep(d, sep);
        assert(a.last() != sep) by {
            assert(a[a.len() - 1] == a.last());
        }
        assert(d.push(a.last()) =~= a);
        assert(seq![d].update(0, d.push(a.last())) =~= seq![a]);
    } else {
        assert(a =~= Seq::<char>::empty());
    }
}

/// Splitting at a separator splits each side on its own.
pub proof fn lemma_split_concat(x: Seq<char>, b: Seq<char>, sep: char)
    ensures
        split_seq(x + seq![sep] + b, sep) == split_seq(x, sep) + split_seq(b, sep),
    decreases b.len(),
{
    let s = x + seq![sep] + b;
    if b.len() == 0 {
        assert(s.drop_last() =~= x);
        assert(split_seq(x, sep).push(Seq::empty()) =~= split_seq(x, sep) + seq![Seq::<char>::empty()]);
    } else {
        let b1 = b.drop_last();
        assert(s.drop_last() =~= x + seq![sep] + b1);
        assert(s.last() == b.last());
        lemma_split_concat(x, b1, sep);
        lemma_split_nonempty(b1, sep);
        let l = split_seq(x, sep);
        let r = split_seq(b1, sep);
        if b.last() == sep {
            assert((l + r).push(Seq::empty()) =~= l + r.push(Seq::empty()));
        } else {
            let lr = l + r;
            assert(lr.update(lr.len() - 1, lr.last().push(b.last())) =~= l + r.update(
                r.len() - 1,
                r.last().push(b.last()),
            ));
        }
    }
}

/// Pieces without the separator, joined by it, split back into themselves.
pub proof fn lemma_split_join(ps: Seq<Seq<char>>, sep: char)
    requires
        ps.len() > 0,
        forall|i: int| 0 <= i < ps.len() ==> !(#[trigger] ps[i]).contains(sep),
    ensures
        split_seq(join_seq(ps, seq![sep]), sep) == ps,
    decreases ps.len(),
{
    if ps.len() == 1 {
        lemma_split_no_sep(ps[0], sep);
        assert(seq![ps[0]] =~= ps);
    } else {
        let d = ps.drop_last();
        assert forall|i: int| 0 <= i < d.len() implies !(#[trigger] d[i]).contains(sep) by {
            assert(d[i] == ps[i]);
        }
        lemma_split_join(d, sep);
        assert(!ps.last().contains(sep)) by {
            assert(ps[ps.len() - 1] == ps.last());
        }
        lemma_split_no_sep(ps.last(), sep);
        lemma_split_concat(join_seq(d, seq![sep]), ps.last(), sep);
        assert(d + seq![ps.last()] =~= ps);
    }
}

/// A text whose ends are not white space is its own trim.
pub proof fn lemma_trim_unchanged(s: Seq<char>)
    requires
        s.len() == 0 || (!is_white(s[0]) && !is_white(s.last())),
    ensures
        trim_seq(s) == s,
{
}

proof fn lemma_trim_start_len(s: Seq<char>)
    ensures
        trim_start_seq(s).len() <= s.len(),
        s.len() > 0 && is_white(s[0]) ==> trim_start_seq(s).len() < s.len(),
        trim_start_seq(s).len() > 0 ==> trim_start_seq(s).last() == s.last(),
    decreases s.len(),
{
    if s.len() > 0 && is_white(s[0]) {
        lemma_trim_start_len(s.drop_first());
    }
}

proof fn lemma_trim_end_len(s: Seq<char>)
    ensures
        trim_end_seq(s).len() <= s.len(),
        s.len() > 0 && is_white(s.last()) ==> trim_end_seq(s).len() < s.len(),
    decreases s.len(),
{
    if s.len() > 0 && is_white(s.last()) {
        lemma_trim_end_len(s.drop_last());
    }
}

/// A non-empty text that is its own trim starts and ends with a character
/// that is not white space.
pub proof fn lemma_trimmed_edges(s: Seq<char>)
    requires
        trim_seq(s) == s,
        s.len() > 0,
    ensures
        !is_white(s[0]),
        !is_white(s.last()),
{
    lemma_trim_start_len(s);
    lemma_trim_end_len(trim_start_seq(s));
    if !is_white(s[0]) {
        assert(trim_start_seq(s) == s);
    }
}

/// The views of a sequence of strings.
pub open spec fn views(s: Seq<String>) -> Seq<Seq<char>> {
    Seq::new(s.len(), |i: int| s[i]@)
}

/// `str::split` on a character, as owned strings.
pub fn split_on(s: &str, sep: char) -> (r: Vec<String>)
    ensures
        views(r@) == split_seq(s@, sep),
{
    let v = chars_of(s);
    let mut out: Vec<String> = Vec::new();
    let mut cur = String::new();
    let mut i: usize = 0;
    proof {
        assert(v@.take(0) =~= Seq::<char>::empty());
        assert(views(out@).push(cur@) =~= seq![Seq::<char>::empty()]);
    }
    while i < v.len()
        invariant
            i <= v.len(),
            v@ == s@,
            views(out@).push(cur@) == split_seq(v@.take(i as int), sep),
        decreases v.len() - i,
    {
        let ghost prev_out = views(out@);
        let ghost prev_cur = cur@;
        let c = v[i];
        proof {
            assert(v@.take(i + 1).drop_last() =~= v@.take(i as int));
            assert(v@.take(i + 1).last() == c);
        }
        if c == sep {
            let mut done = String::new();
            std::mem::swap(&mut done, &mut cur);
            out.push(done);
            proof {
                assert(views(out@) =~= prev_out.push(prev_cur));
                assert(views(out@).push(cur@) =~= prev_out.push(prev_cur).push(Seq::empty()));
            }
        } else {
            push_char(&mut cur, c);
            proof {
                let r = prev_out.push(prev_cur);
                assert(views(out@).push(cur@) =~= r.update(r.len() - 1, r.last().push(c)));
            }
        }
        i = i + 1;
    }
    out.push(cur);
    proof {
        assert(v@.take(v@.len() as int) =~= v@);
    }
    out
}

/// Texts joined by a separator.
pub open spec fn join_seq(parts: Seq<Seq<char>>, sep: Seq<char>) -> Seq<char>
    decreases parts.len(),
{
    if parts.len() == 0 {
        Seq::empty()
    } else if parts.len() == 1 {
        parts[0]
    } else {
        join_seq(parts.drop_last(), sep) + sep + parts.last()
    }
}

/// `[String]::join`.
pub fn join_strings(parts: &Vec<String>, sep: &str) -> (r: String)
    ensures
        r@ == join_seq(views(parts@), sep@),
{
    let mut r = String::new();
    let mut i: usize = 0;
    let ghost pv = views(parts@);
    proof {
        assert(pv.take(0) =~= Seq::<Seq<char>>::empty());
    }
    while i < parts.len()
        invariant
            i <= parts.len(),
            pv == views(parts@),
            r@ == join_seq(pv.take(i as int), sep@),
        decreases parts.len() - i,
    {
        proof {
            assert(pv.take(i + 1).drop_last() =~= pv.take(i as int));
            assert(pv.take(i + 1).last() == parts@[i as int]@);
        }
        if i > 0 {
            push_str(&mut r, sep);
        } else {
            assert(pv.take(1).len() == 1);
        }
        push_str(&mut r, parts[i].as_str());
        i = i + 1;
    }
    proof {
        assert(pv.take(parts.len() as int) =~= pv);
    }
    r
}

// ---------------------------------------------------------------------------
// Decimal numbers

/// The decimal digits of `n`, most significant first, without leading zeros
/// (`"0"` for zero).
pub open spec fn decimal_seq(n: nat) -> Seq<char>
    decreases n,
{
    if n < 10 {
        seq![digit_char(n)]
    } else {
        decimal_seq(n / 10).push(digit_char(n % 10))
    }
}

/// The character of the decimal digit `d` (for `d < 10`).
pub open spec fn digit_char(d: nat) -> char {
    ((d + 48) as u32) as char
}

/// `n` written in decimal (what `u64::to_string` returns).
pub fn u64_decimal(n: u64) -> (s: String)
    ensures
        s@ == decimal_seq(n as nat),
    decreases n,
{
    let d = (n % 10) as u8;
    let c = (d + 48) as char;
    assert(c == digit_char((n % 10) as nat)) by {
        assert((d + 48) as u32 == ((n % 10) + 48) as u32);
    }
    if n < 10 {
        let mut s = String::new();
        push_char(&mut s, c);
        assert(s@ =~= seq![c]);
        s
    } else {
        let mut s = u64_decimal(n / 10);
        push_char(&mut s, c);
        s
    }
}

} // verus!
