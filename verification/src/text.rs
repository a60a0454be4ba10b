//! Text as sequences of characters: trimming, searching, splitting and replacing.

use vstd::prelude::*;

verus! {

broadcast use vstd::string::group_string_axioms;

// ---------------------------------------------------------------------------
// Models
// ---------------------------------------------------------------------------

/// The characters with the Unicode property `White_Space`.
pub open spec fn is_white(c: char) -> bool {
    ||| '\u{9}' <= c <= '\u{d}'
    ||| c == ' '
    ||| c == '\u{85}'
    ||| c == '\u{a0}'
    ||| c == '\u{1680}'
    ||| '\u{2000}' <= c <= '\u{200a}'
    ||| c == '\u{2028}'
    ||| c == '\u{2029}'
    ||| c == '\u{202f}'
    ||| c == '\u{205f}'
    ||| c == '\u{3000}'
}

/// `s` without its leading white space.
pub open spec fn without_leading(s: Seq<char>) -> Seq<char>
    decreases s.len(),
{
    if s.len() > 0 && is_white(s[0]) {
        without_leading(s.subrange(1, s.len() as int))
    } else {
        s
    }
}

/// `s` without its trailing white space.
pub open spec fn without_trailing(s: Seq<char>) -> Seq<char>
    decreases s.len(),
{
    if s.len() > 0 && is_white(s[s.len() - 1]) {
        without_trailing(s.subrange(0, s.len() - 1))
    } else {
        s
    }
}

/// `s` without the white space on either end.
pub open spec fn trimmed(s: Seq<char>) -> Seq<char> {
    without_leading(without_trailing(s))
}

/// Whether a character is one of the first 128.
pub open spec fn is_ascii(c: char) -> bool {
    c <= '\u{7f}'
}

/// Whether a character is a letter without accents.
pub open spec fn ascii_letter(c: char) -> bool {
    'a' <= c <= 'z' || 'A' <= c <= 'Z'
}

/// A letter without accents in upper case; any other character as it is.
pub open spec fn ascii_upper(c: char) -> char {
    if 'a' <= c <= 'z' {
        (c as u32 - 32) as char
    } else {
        c
    }
}

/// A letter without accents in lower case; any other character as it is.
pub open spec fn ascii_lower(c: char) -> char {
    if 'A' <= c <= 'Z' {
        (c as u32 + 32) as char
    } else {
        c
    }
}

/// Whether `s` reads `part` from position `at` on.
pub open spec fn reads_at(s: Seq<char>, part: Seq<char>, at: int) -> bool {
    0 <= at && at + part.len() <= s.len() && s.subrange(at, at + part.len()) == part
}

/// Whether `part` occurs in `s`.
pub open spec fn occurs_in(s: Seq<char>, part: Seq<char>) -> bool {
    exists|at: int| #[trigger] reads_at(s, part, at)
}

/// Whether `s` begins with `part`.
pub open spec fn begins_with(s: Seq<char>, part: Seq<char>) -> bool {
    reads_at(s, part, 0)
}

/// Whether `s` ends with `part`.
pub open spec fn ends_with(s: Seq<char>, part: Seq<char>) -> bool {
    reads_at(s, part, s.len() - part.len())
}

/// What follows the prefix of length `n`.
pub open spec fn after(s: Seq<char>, n: int) -> Seq<char> {
    s.subrange(n, s.len() as int)
}

/// The rest of `s` behind `part`, where `s` begins with it.
pub open spec fn stripped(s: Seq<char>, part: Seq<char>) -> Option<Seq<char>> {
    if begins_with(s, part) {
        Some(after(s, part.len() as int))
    } else {
        None
    }
}

/// The position of the first `c` in `s`, or the length of `s`.
pub open spec fn first_of(s: Seq<char>, c: char) -> int
    decreases s.len(),
{
    if s.len() == 0 || s[0] == c {
        0
    } else {
        1 + first_of(s.subrange(1, s.len() as int), c)
    }
}

/// The position of the last `c` in `s`, or `-1`.
pub open spec fn last_of(s: Seq<char>, c: char) -> int
    decreases s.len(),
{
    if s.len() == 0 {
        -1
    } else if s[s.len() - 1] == c {
        s.len() - 1
    } else {
        last_of(s.subrange(0, s.len() - 1), c)
    }
}

/// The pieces of `s` between the occurrences of `c`; always at least one.
pub open spec fn pieces(s: Seq<char>, c: char) -> Seq<Seq<char>>
    decreases s.len(),
{
    let at = first_of(s, c);
    if 0 <= at < s.len() {
        seq![s.subrange(0, at)] + pieces(after(s, at + 1), c)
    } else {
        seq![s]
    }
}

/// `line` without one carriage return at its end.
pub open spec fn without_return(line: Seq<char>) -> Seq<char> {
    if line.len() > 0 && line[line.len() - 1] == '\r' {
        line.subrange(0, line.len() - 1)
    } else {
        line
    }
}

/// The lines of `s`, each without its line ending (`\n` or `\r\n`). A text that
/// ends with a line ending has no further, empty line behind it.
pub open spec fn lines_of(s: Seq<char>) -> Seq<Seq<char>>
    decreases s.len(),
{
    if s.len() == 0 {
        seq![]
    } else {
        let at = first_of(s, '\n');
        if 0 <= at < s.len() {
            seq![without_return(s.subrange(0, at))] + lines_of(after(s, at + 1))
        } else {
            seq![s]
        }
    }
}

/// `s` with every occurrence of `from`, read from the left without overlaps, replaced by `to`.
pub open spec fn replaced(s: Seq<char>, from: Seq<char>, to: Seq<char>) -> Seq<char>
    recommends
        from.len() > 0,
    decreases s.len(),
{
    if s.len() == 0 || from.len() == 0 {
        s
    } else if begins_with(s, from) {
        to + replaced(after(s, from.len() as int), from, to)
    } else {
        seq![s[0]] + replaced(after(s, 1), from, to)
    }
}

/// `s` with every `old` turned into `new`.
pub open spec fn char_replaced(s: Seq<char>, old_char: char, new_char: char) -> Seq<char> {
    Seq::new(s.len(), |i: int| if s[i] == old_char { new_char } else { s[i] })
}

/// `s` without the copies of `c` at its end.
pub open spec fn without_tail(s: Seq<char>, c: char) -> Seq<char>
    decreases s.len(),
{
    if s.len() > 0 && s[s.len() - 1] == c {
        without_tail(s.subrange(0, s.len() - 1), c)
    } else {
        s
    }
}

/// `s` without the copies of `c` at its start.
pub open spec fn without_head(s: Seq<char>, c: char) -> Seq<char>
    decreases s.len(),
{
    if s.len() > 0 && s[0] == c {
        without_head(s.subrange(1, s.len() as int), c)
    } else {
        s
    }
}

/// Whether `a` comes before `b` in the order of code points, a proper prefix first.
pub open spec fn text_before(a: Seq<char>, b: Seq<char>) -> bool
    decreases a.len(),
{
    if b.len() == 0 {
        false
    } else if a.len() == 0 {
        true
    } else if a[0] != b[0] {
        a[0] < b[0]
    } else {
        text_before(a.subrange(1, a.len() as int), b.subrange(1, b.len() as int))
    }
}

/// The pieces joined, with `sep` between neighbours.
pub open spec fn joined(parts: Seq<Seq<char>>, sep: Seq<char>) -> Seq<char>
    decreases parts.len(),
{
    if parts.len() == 0 {
        seq![]
    } else if parts.len() == 1 {
        parts[0]
    } else {
        joined(parts.drop_last(), sep) + sep + parts.last()
    }
}

// ---------------------------------------------------------------------------
// Outside functions
// ---------------------------------------------------------------------------

/// `String::push`: appends the given character to the end of the string.
pub assume_specification[ String::push ](s: &mut String, c: char)
    ensures
        final(s)@ == old(s)@.push(c),
;

/// What `str::to_lowercase` makes of a text: the Unicode lower case mapping of the
/// whole text, which looks at neighbours (a final sigma) and may change its length.
pub uninterp spec fn lowercase(s: Seq<char>) -> Seq<char>;

/// What `str::to_uppercase` makes of a text: the Unicode upper case mapping.
pub uninterp spec fn uppercase(s: Seq<char>) -> Seq<char>;

/// `str::to_lowercase`, under its name.
#[verifier::external_body]
pub(crate) fn to_lower(s: &str) -> (r: String)
    ensures
        r@ == lowercase(s@),
{
    s.to_lowercase()
}

/// `str::to_uppercase`, under its name.
#[verifier::external_body]
pub(crate) fn to_upper(s: &str) -> (r: String)
    ensures
        r@ == uppercase(s@),
{
    s.to_uppercase()
}

/// What `char::to_uppercase` yields, in order: the upper case mapping of one
/// character, one or more characters.
pub uninterp spec fn char_upper(c: char) -> Seq<char>;

/// What `char::to_lowercase` yields, in order: the lower case mapping of one
/// character, one or more characters.
pub uninterp spec fn char_lower(c: char) -> Seq<char>;

/// What `char::is_alphabetic` answers: whether the character has the property `Alphabetic`.
pub uninterp spec fn char_alphabetic(c: char) -> bool;

/// `char::to_uppercase`, its characters collected. Of the first 128 characters the letters
/// from `a` to `z` are mapped to those from `A` to `Z`, and all others to themselves.
#[verifier::external_body]
pub(crate) fn upper_chars(c: char) -> (r: Vec<char>)
    ensures
        r@ == char_upper(c),
        is_ascii(c) ==> r@ == seq![ascii_upper(c)],
{
    c.to_uppercase().collect()
}

/// `char::to_lowercase`, its characters collected. Of the first 128 characters the letters
/// from `A` to `Z` are mapped to those from `a` to `z`, and all others to themselves.
#[verifier::external_body]
pub(crate) fn lower_chars(c: char) -> (r: Vec<char>)
    ensures
        r@ == char_lower(c),
        is_ascii(c) ==> r@ == seq![ascii_lower(c)],
{
    c.to_lowercase().collect()
}

/// `char::is_alphabetic`, under its name. Of the first 128 characters it holds of the letters
/// from `a` to `z` and from `A` to `Z`.
#[verifier::external_body]
pub(crate) fn is_alphabetic(c: char) -> (r: bool)
    ensures
        r == char_alphabetic(c),
        is_ascii(c) ==> r == ascii_letter(c),
{
    c.is_alphabetic()
}

// ---------------------------------------------------------------------------
// Executable text
// ---------------------------------------------------------------------------

/// The characters of a text.
pub fn chars_of(s: &str) -> (r: Vec<char>)
    ensures
        r@ == s@,
{
    let mut out: Vec<char> = Vec::new();
    for c in it: s.chars()
        invariant
            out@ == it.seq().take(it.index()),
            it.seq() == s@,
    {
        out.push(c);
    }
    assert(s@.take(s@.len() as int) == s@);
    out
}

/// The text made of `v[from..to]`.
pub fn text_of(v: &Vec<char>, from: usize, to: usize) -> (r: String)
    requires
        from <= to <= v.len(),
    ensures
        r@ == v@.subrange(from as int, to as int),
{
    let mut out = String::new();
    let mut i: usize = from;
    while i < to
        invariant
            from <= i <= to <= v.len(),
            out@ == v@.subrange(from as int, i as int),
        decreases to - i,
    {
        out.push(v[i]);
        proof {
            assert(v@.subrange(from as int, i + 1) == v@.subrange(from as int, i as int).push(
                v@[i as int],
            ));
        }
        i += 1;
    }
    out
}

/// The text made of all of `v`.
pub fn text_from(v: &Vec<char>) -> (r: String)
    ensures
        r@ == v@,
{
    let r = text_of(v, 0, v.len());
    assert(v@.subrange(0, v.len() as int) == v@);
    r
}

/// Whether two texts are the same.
pub fn same(a: &str, b: &str) -> (r: bool)
    ensures
        r == (a@ == b@),
{
    a.to_owned() == b.to_owned()
}

/// Whether a character is white space.
pub fn is_whitespace(c: char) -> (r: bool)
    ensures
        r == is_white(c),
{
    ('\u{9}' <= c && c <= '\u{d}') || c == ' ' || c == '\u{85}' || c == '\u{a0}' || c == '\u{1680}'
        || ('\u{2000}' <= c && c <= '\u{200a}') || c == '\u{2028}' || c == '\u{2029}' || c
        == '\u{202f}' || c == '\u{205f}' || c == '\u{3000}'
}

/// A text without the white space on either end.
pub fn trim(s: &str) -> (r: String)
    ensures
        r@ == trimmed(s@),
{
    let v = chars_of(s);
    let mut end: usize = v.len();
    assert(v@.subrange(0, v.len() as int) == v@);
    while end > 0 && is_whitespace(v[end - 1])
        invariant
            end <= v.len(),
            without_trailing(s@) == without_trailing(v@.subrange(0, end as int)),
        decreases end,
    {
        proof {
            let t = v@.subrange(0, end as int);
            assert(t.subrange(0, t.len() - 1) == v@.subrange(0, end - 1));
        }
        end -= 1;
    }
    proof {
        let t = v@.subrange(0, end as int);
        if end > 0 {
            assert(t[t.len() - 1] == v@[end - 1]);
        }
        assert(without_trailing(s@) == t);
    }
    let mut start: usize = 0;
    while start < end && is_whitespace(v[start])
        invariant
            start <= end <= v.len(),
            trimmed(s@) == without_leading(v@.subrange(start as int, end as int)),
        decreases end - start,
    {
        proof {
            let t = v@.subrange(start as int, end as int);
            assert(t.subrange(1, t.len() as int) == v@.subrange(start + 1, end as int));
        }
        start += 1;
    }
    proof {
        let t = v@.subrange(start as int, end as int);
        if start < end {
            assert(t[0] == v@[start as int]);
        }
    }
    text_of(&v, start, end)
}

/// Whether `v` reads `part` from position `at` on.
pub fn reads(v: &Vec<char>, part: &Vec<char>, at: usize) -> (r: bool)
    ensures
        r == reads_at(v@, part@, at as int),
{
    if at > v.len() || part.len() > v.len() - at {
        return false;
    }
    let mut i: usize = 0;
    while i < part.len()
        invariant
            i <= part.len(),
            at + part.len() <= v.len(),
            forall|k: int| 0 <= k < i ==> v@[at + k] == part@[k],
        decreases part.len() - i,
    {
        if v[at + i] != part[i] {
            proof {
                assert(v@.subrange(at as int, at + part.len())[i as int] == v@[at + i]);
            }
            return false;
        }
        i += 1;
    }
    assert(v@.subrange(at as int, at + part.len()) =~= part@);
    true
}

/// Whether `s` begins with `part`.
pub fn starts(s: &str, part: &str) -> (r: bool)
    ensures
        r == begins_with(s@, part@),
{
    let v = chars_of(s);
    let p = chars_of(part);
    reads(&v, &p, 0)
}

/// Whether `s` ends with `part`.
pub fn ends(s: &str, part: &str) -> (r: bool)
    ensures
        r == ends_with(s@, part@),
{
    let v = chars_of(s);
    let p = chars_of(part);
    if p.len() > v.len() {
        return false;
    }
    reads(&v, &p, v.len() - p.len())
}

/// Whether `part` occurs in `s`.
pub fn contains(s: &str, part: &str) -> (r: bool)
    ensures
        r == occurs_in(s@, part@),
{
    let v = chars_of(s);
    let p = chars_of(part);
    if p.len() > v.len() {
        return false;
    }
    let last: usize = v.len() - p.len();
    let mut at: usize = 0;
    loop
        invariant
            at <= last,
            last + p.len() == v.len(),
            v@ == s@,
            p@ == part@,
            forall|k: int| 0 <= k < at ==> !reads_at(s@, part@, k),
        decreases last - at,
    {
        if reads(&v, &p, at) {
            assert(reads_at(s@, part@, at as int));
            return true;
        }
        if at == last {
            assert forall|k: int| !reads_at(s@, part@, k) by {
                if 0 <= k < at {
                } else if k == at {
                } else {
                }
            }
            return false;
        }
        at += 1;
    }
}

/// The rest of `s` behind `part`, where `s` begins with it.
pub fn strip_prefix(s: &str, part: &str) -> (r: Option<String>)
    ensures
        r.deep_view() == stripped(s@, part@),
{
    let v = chars_of(s);
    let p = chars_of(part);
    if reads(&v, &p, 0) {
        Some(text_of(&v, p.len(), v.len()))
    } else {
        None
    }
}

/// The position of the first `c` at or behind `from`, or the length of `v`.
pub fn find_char(v: &Vec<char>, c: char, from: usize) -> (r: usize)
    requires
        from <= v.len(),
    ensures
        from <= r <= v.len(),
        r == from + first_of(after(v@, from as int), c),
        r < v.len() ==> v@[r as int] == c,
{
    let mut i: usize = from;
    while i < v.len() && v[i] != c
        invariant
            from <= i <= v.len(),
            first_of(after(v@, from as int), c) == (i - from) + first_of(after(v@, i as int), c),
        decreases v.len() - i,
    {
        proof {
            let t = after(v@, i as int);
            assert(t.subrange(1, t.len() as int) == after(v@, i + 1));
        }
        i += 1;
    }
    proof {
        let t = after(v@, i as int);
        if i < v.len() {
            assert(t[0] == v@[i as int]);
        }
    }
    i
}

/// Bounds and meaning of `first_of`.
pub proof fn lemma_first_of(s: Seq<char>, c: char)
    ensures
        0 <= first_of(s, c) <= s.len(),
        first_of(s, c) < s.len() ==> s[first_of(s, c)] == c,
        forall|k: int| 0 <= k < first_of(s, c) ==> s[k] != c,
    decreases s.len(),
{
    if s.len() > 0 && s[0] != c {
        let t = s.subrange(1, s.len() as int);
        lemma_first_of(t, c);
        assert forall|k: int| 0 <= k < first_of(s, c) implies s[k] != c by {
            if k > 0 {
                assert(s[k] == t[k - 1]);
            }
        }
    }
}

/// `first_of` is the one position with no earlier `c` that holds `c` or is the end.
pub proof fn lemma_first_of_is(s: Seq<char>, c: char, at: int)
    requires
        0 <= at <= s.len(),
        at < s.len() ==> s[at] == c,
        forall|k: int| 0 <= k < at ==> s[k] != c,
    ensures
        first_of(s, c) == at,
{
    lemma_first_of(s, c);
    let f = first_of(s, c);
    if f < at {
        assert(s[f] == c);
    } else if at < f {
        assert(s[at] != c);
    }
}

/// Bounds and meaning of `last_of`.
pub proof fn lemma_last_of(s: Seq<char>, c: char)
    ensures
        -1 <= last_of(s, c) < s.len(),
        last_of(s, c) >= 0 ==> s[last_of(s, c)] == c,
        forall|k: int| last_of(s, c) < k < s.len() ==> s[k] != c,
    decreases s.len(),
{
    if s.len() > 0 && s[s.len() - 1] != c {
        let t = s.subrange(0, s.len() - 1);
        lemma_last_of(t, c);
        assert forall|k: int| last_of(s, c) < k < s.len() implies s[k] != c by {
            if k < s.len() - 1 {
                assert(s[k] == t[k]);
            }
        }
    }
}

/// `last_of` is the one position with no later `c` that holds `c` or is `-1`.
pub proof fn lemma_last_of_is(s: Seq<char>, c: char, at: int)
    requires
        -1 <= at < s.len(),
        at >= 0 ==> s[at] == c,
        forall|k: int| at < k < s.len() ==> s[k] != c,
    ensures
        last_of(s, c) == at,
{
    lemma_last_of(s, c);
    let f = last_of(s, c);
    if f < at {
        assert(s[at] != c);
    } else if at < f {
        assert(s[f] != c);
    }
}

/// The position of the last `c` in `v`, if there is one.
pub fn rfind_char(v: &Vec<char>, c: char) -> (r: Option<usize>)
    ensures
        r is None ==> last_of(v@, c) == -1,
        r matches Some(i) ==> last_of(v@, c) == i && i < v.len(),
{
    let mut i: usize = v.len();
    while i > 0
        invariant
            i <= v.len(),
            forall|k: int| i <= k < v.len() ==> v@[k] != c,
        decreases i,
    {
        if v[i - 1] == c {
            proof {
                lemma_last_of_is(v@, c, i - 1);
            }
            return Some(i - 1);
        }
        i -= 1;
    }
    proof {
        lemma_last_of_is(v@, c, -1);
    }
    None
}

/// Every line of a text, without its line ending.
pub fn lines(s: &str) -> (r: Vec<String>)
    ensures
        r.deep_view() == lines_of(s@),
{
    let v = chars_of(s);
    let mut out: Vec<String> = Vec::new();
    let mut start: usize = 0;
    assert(after(v@, 0) == v@);
    assert(out.deep_view() + lines_of(v@) =~= lines_of(v@));
    while start < v.len()
        invariant
            start <= v.len(),
            lines_of(s@) == out.deep_view() + lines_of(after(v@, start as int)),
        decreases v.len() - start,
    {
        let ghost before = out.deep_view();
        let ghost rest = after(v@, start as int);
        let at = find_char(&v, '\n', start);
        if at < v.len() {
            let stop: usize = if at > start && v[at - 1] == '\r' {
                at - 1
            } else {
                at
            };
            let line = text_of(&v, start, stop);
            proof {
                let raw = rest.subrange(0, at - start);
                assert(raw == v@.subrange(start as int, at as int));
                assert(without_return(raw) == v@.subrange(start as int, stop as int));
                assert(after(rest, at - start + 1) == after(v@, at + 1));
            }
            out.push(line);
            proof {
                assert(out.deep_view() == before.push(line@));
                assert(before + (seq![line@] + lines_of(after(v@, at + 1))) =~= before.push(line@)
                    + lines_of(after(v@, at + 1)));
            }
            start = at + 1;
        } else {
            let line = text_of(&v, start, v.len());
            out.push(line);
            proof {
                assert(line@ == rest);
                assert(out.deep_view() == before.push(line@));
                assert(after(v@, v.len() as int).len() == 0);
                assert(before + seq![line@] =~= before.push(line@));
                assert(out.deep_view() + lines_of(after(v@, v.len() as int)) =~= out.deep_view());
            }
            start = v.len();
        }
    }
    assert(out.deep_view() + lines_of(after(v@, start as int)) =~= out.deep_view());
    out
}

/// The pieces of a text between the occurrences of `c`.
pub fn split(s: &str, c: char) -> (r: Vec<String>)
    ensures
        r.deep_view() == pieces(s@, c),
{
    let v = chars_of(s);
    let mut out: Vec<String> = Vec::new();
    let mut start: usize = 0;
    assert(after(v@, 0) == v@);
    assert(out.deep_view() + pieces(v@, c) =~= pieces(v@, c));
    loop
        invariant
            start <= v.len(),
            v@ == s@,
            pieces(s@, c) == out.deep_view() + pieces(after(v@, start as int), c),
        decreases v.len() - start,
    {
        let ghost before = out.deep_view();
        let ghost rest = after(v@, start as int);
        let at = find_char(&v, c, start);
        let piece = text_of(&v, start, at);
        out.push(piece);
        proof {
            assert(out.deep_view() == before.push(piece@));
            assert(before + seq![piece@] =~= before.push(piece@));
        }
        if at < v.len() {
            proof {
                assert(rest.subrange(0, at - start) == piece@);
                assert(after(rest, at - start + 1) == after(v@, at + 1));
                assert(before + (seq![piece@] + pieces(after(v@, at + 1), c)) =~= before.push(
                    piece@,
                ) + pieces(after(v@, at + 1), c));
            }
            start = at + 1;
        } else {
            assert(rest == piece@);
            return out;
        }
    }
}

/// A text with every occurrence of `from` replaced by `to`.
pub fn replace(s: &str, from: &str, to: &str) -> (r: String)
    requires
        from@.len() > 0,
    ensures
        r@ == replaced(s@, from@, to@),
{
    let v = chars_of(s);
    let f = chars_of(from);
    let mut out = String::new();
    let mut i: usize = 0;
    assert(after(v@, 0) == v@);
    assert(out@ + replaced(v@, from@, to@) =~= replaced(v@, from@, to@));
    while i < v.len()
        invariant
            i <= v.len(),
            f@ == from@,
            f.len() > 0,
            replaced(s@, from@, to@) == out@ + replaced(after(v@, i as int), from@, to@),
        decreases v.len() - i,
    {
        let ghost before = out@;
        let ghost rest = after(v@, i as int);
        let hit = reads(&v, &f, i);
        proof {
            if hit {
                assert(rest.subrange(0, f.len() as int) == v@.subrange(i as int, i + f.len()));
            } else if begins_with(rest, from@) {
                assert(v@.subrange(i as int, i + f.len()) == rest.subrange(0, f.len() as int));
            }
        }
        if hit {
            out.append(to);
            proof {
                assert(after(rest, f.len() as int) == after(v@, i + f.len()));
                let tail = replaced(after(v@, i + f.len()), from@, to@);
                assert(before + (to@ + tail) =~= out@ + tail);
            }
            i += f.len();
        } else {
            out.push(v[i]);
            proof {
                assert(rest[0] == v@[i as int]);
                assert(after(rest, 1) == after(v@, i + 1));
                let tail = replaced(after(v@, i + 1), from@, to@);
                assert(before + (seq![rest[0]] + tail) =~= out@ + tail);
            }
            i += 1;
        }
    }
    assert(out@ + replaced(after(v@, i as int), from@, to@) =~= out@);
    out
}

/// A text with every `from` turned into `to`.
pub fn replace_char(s: &str, from: char, to: char) -> (r: String)
    ensures
        r@ == char_replaced(s@, from, to),
{
    let v = chars_of(s);
    let mut out = String::new();
    let mut i: usize = 0;
    while i < v.len()
        invariant
            i <= v.len(),
            v@ == s@,
            out@ == char_replaced(s@, from, to).subrange(0, i as int),
        decreases v.len() - i,
    {
        let c = if v[i] == from {
            to
        } else {
            v[i]
        };
        out.push(c);
        proof {
            let full = char_replaced(s@, from, to);
            assert(full.subrange(0, i + 1) == full.subrange(0, i as int).push(full[i as int]));
        }
        i += 1;
    }
    assert(char_replaced(s@, from, to).subrange(0, v.len() as int) == char_replaced(s@, from, to));
    out
}

/// A text without the copies of `c` at its start.
pub fn trim_start_char(s: &str, c: char) -> (r: String)
    ensures
        r@ == without_head(s@, c),
{
    let v = chars_of(s);
    let mut i: usize = 0;
    assert(after(v@, 0) == v@);
    while i < v.len() && v[i] == c
        invariant
            i <= v.len(),
            without_head(s@, c) == without_head(after(v@, i as int), c),
        decreases v.len() - i,
    {
        proof {
            let t = after(v@, i as int);
            assert(t.subrange(1, t.len() as int) == after(v@, i + 1));
        }
        i += 1;
    }
    proof {
        let t = after(v@, i as int);
        if i < v.len() {
            assert(t[0] == v@[i as int]);
        }
    }
    text_of(&v, i, v.len())
}

/// A text without the copies of `c` at its end.
pub fn trim_end_char(s: &str, c: char) -> (r: String)
    ensures
        r@ == without_tail(s@, c),
{
    let v = chars_of(s);
    let mut end: usize = v.len();
    assert(v@.subrange(0, v.len() as int) == v@);
    while end > 0 && v[end - 1] == c
        invariant
            end <= v.len(),
            without_tail(s@, c) == without_tail(v@.subrange(0, end as int), c),
        decreases end,
    {
        proof {
            let t = v@.subrange(0, end as int);
            assert(t.subrange(0, t.len() - 1) == v@.subrange(0, end - 1));
        }
        end -= 1;
    }
    proof {
        let t = v@.subrange(0, end as int);
        if end > 0 {
            assert(t[t.len() - 1] == v@[end - 1]);
        }
    }
    text_of(&v, 0, end)
}

/// The pieces joined, with `sep` between neighbours.
pub fn join(parts: &Vec<String>, sep: &str) -> (r: String)
    ensures
        r@ == joined(parts.deep_view(), sep@),
{
    let mut out = String::new();
    let mut i: usize = 0;
    while i < parts.len()
        invariant
            i <= parts.len(),
            out@ == joined(parts.deep_view().take(i as int), sep@),
        decreases parts.len() - i,
    {
        if i > 0 {
            out.append(sep);
        }
        out.append(parts[i].as_str());
        proof {
            let all = parts.deep_view();
            assert(all.take(i + 1).drop_last() == all.take(i as int));
            if i == 0 {
                assert(out@ =~= all[0]);
            }
        }
        i += 1;
    }
    assert(parts.deep_view().take(parts.len() as int) == parts.deep_view());
    out
}

/// A copy of a list of texts.
pub fn copy_texts(v: &Vec<String>) -> (r: Vec<String>)
    ensures
        r.deep_view() == v.deep_view(),
        r@ == v@,
{
    let mut out: Vec<String> = Vec::new();
    let mut i: usize = 0;
    while i < v.len()
        invariant
            i <= v.len(),
            out@ == v@.take(i as int),
        decreases v.len() - i,
    {
        out.push(v[i].clone());
        assert(v@.take(i + 1) == v@.take(i as int).push(v@[i as int]));
        i += 1;
    }
    assert(v@.take(v.len() as int) == v@);
    out
}

// ---------------------------------------------------------------------------
// Laws
// ---------------------------------------------------------------------------

/// A text occurs in another exactly where the other is made of something, the text, and
/// something again.
pub proof fn occurs_by_parting(s: Seq<char>, part: Seq<char>)
    ensures
        occurs_in(s, part) <==> exists|a: Seq<char>, b: Seq<char>| s == #[trigger] (a + part + b),
{
    if occurs_in(s, part) {
        let at = choose|at: int| #[trigger] reads_at(s, part, at);
        let a = s.take(at);
        let b = s.skip(at + part.len());
        assert(s =~= a + part + b);
    }
    if exists|a: Seq<char>, b: Seq<char>| s == #[trigger] (a + part + b) {
        let (a, b) = choose|a: Seq<char>, b: Seq<char>| s == #[trigger] (a + part + b);
        assert(s.subrange(a.len() as int, (a.len() + part.len()) as int) =~= part);
        assert(reads_at(s, part, a.len() as int));
    }
}

/// A text begins with another exactly where it is made of that and something more.
pub proof fn begins_by_parting(s: Seq<char>, part: Seq<char>)
    ensures
        begins_with(s, part) <==> exists|b: Seq<char>| s == #[trigger] (part + b),
{
    if begins_with(s, part) {
        assert(s =~= part + s.skip(part.len() as int));
    }
    if exists|b: Seq<char>| s == #[trigger] (part + b) {
        assert(s.subrange(0, part.len() as int) =~= part);
    }
}

/// A text ends with another exactly where it is made of something and that.
pub proof fn ends_by_parting(s: Seq<char>, part: Seq<char>)
    ensures
        ends_with(s, part) <==> exists|a: Seq<char>| s == #[trigger] (a + part),
{
    if ends_with(s, part) {
        assert(s =~= s.take(s.len() - part.len()) + part);
    }
    if exists|a: Seq<char>| s == #[trigger] (a + part) {
        assert(s.subrange(s.len() - part.len(), s.len() as int) =~= part);
    }
}

/// What is left behind a beginning is exactly what was put behind it.
pub proof fn stripped_is_the_rest(s: Seq<char>, part: Seq<char>, rest: Seq<char>)
    ensures
        stripped(s, part) == Some(rest) <==> s == part + rest,
{
    if stripped(s, part) is Some {
        assert(s =~= part + after(s, part.len() as int));
    }
    if s == part + rest {
        assert(s.subrange(0, part.len() as int) =~= part);
        assert(after(s, part.len() as int) =~= rest);
    }
}

/// Replacing puts the replacement in the place of the first occurrence and goes on behind it.
pub proof fn replaced_at_the_first(
    a: Seq<char>,
    from: Seq<char>,
    b: Seq<char>,
    to: Seq<char>,
)
    requires
        from.len() > 0,
        forall|k: int|
            0 <= k < a.len() ==> #[trigger] (a + from + b).subrange(k, k + from.len()) != from,
    ensures
        replaced(a + from + b, from, to) == a + to + replaced(b, from, to),
    decreases a.len(),
{
    let s = a + from + b;
    if a.len() == 0 {
        assert(s.subrange(0, from.len() as int) =~= from);
        assert(after(s, from.len() as int) =~= b);
        assert(to + replaced(b, from, to) =~= a + to + replaced(b, from, to));
    } else {
        let rest = a.drop_first();
        let zero: int = 0;
        assert(s.subrange(zero, zero + from.len()) != from);
        assert(after(s, 1) =~= rest + from + b);
        assert forall|k: int| 0 <= k < rest.len() implies #[trigger] (rest + from + b).subrange(
            k,
            k + from.len(),
        ) != from by {
            assert(s.subrange(k + 1, k + 1 + from.len()) =~= (rest + from + b).subrange(
                k,
                k + from.len(),
            ));
        }
        replaced_at_the_first(rest, from, b, to);
        assert(seq![s[0]] + (rest + to + replaced(b, from, to)) =~= a + to + replaced(
            b,
            from,
            to,
        ));
    }
}

/// A text in which nothing is to be replaced stays as it is.
pub proof fn replaced_where_absent(s: Seq<char>, from: Seq<char>, to: Seq<char>)
    requires
        forall|a: Seq<char>, b: Seq<char>| s != #[trigger] (a + from + b),
    ensures
        replaced(s, from, to) == s,
    decreases s.len(),
{
    if s.len() > 0 && from.len() > 0 {
        if begins_with(s, from) {
            let e = Seq::<char>::empty();
            assert(s =~= e + from + s.skip(from.len() as int));
        }
        let rest = after(s, 1);
        assert forall|a: Seq<char>, b: Seq<char>| rest != #[trigger] (a + from + b) by {
            if rest == a + from + b {
                let head = seq![s[0]];
                assert(s =~= head + rest);
                assert(head + (a + from + b) =~= (head + a) + from + b);
            }
        }
        replaced_where_absent(rest, from, to);
        assert(seq![s[0]] + rest =~= s);
    }
}

/// Replacing passes over a beginning that lacks the first character of what is looked for.
pub proof fn replaced_behind(a: Seq<char>, s: Seq<char>, from: Seq<char>, to: Seq<char>)
    requires
        from.len() > 0,
        !a.contains(from[0]),
    ensures
        replaced(a + s, from, to) == a + replaced(s, from, to),
    decreases a.len(),
{
    let all = a + s;
    if a.len() == 0 {
        assert(all =~= s);
        assert(a + replaced(s, from, to) =~= replaced(s, from, to));
    } else {
        assert(a.contains(a[0]));
        if begins_with(all, from) {
            assert(all.subrange(0, from.len() as int)[0] == all[0]);
        }
        let rest = a.drop_first();
        assert(after(all, 1) =~= rest + s);
        assert(!rest.contains(from[0])) by {
            if rest.contains(from[0]) {
                let k = choose|k: int| 0 <= k < rest.len() && rest[k] == from[0];
                assert(a[k + 1] == from[0]);
            }
        }
        replaced_behind(rest, s, from, to);
        assert(seq![all[0]] + (rest + replaced(s, from, to)) =~= a + replaced(s, from, to));
    }
}

/// Trimming takes away white space at both ends, all of it, and nothing else.
pub proof fn trimmed_is_the_core(s: Seq<char>) -> (cut: (int, int))
    ensures
        0 <= cut.0 <= cut.1 <= s.len(),
        trimmed(s) == s.subrange(cut.0, cut.1),
        forall|k: int| 0 <= k < cut.0 ==> is_white(#[trigger] s[k]),
        forall|k: int| cut.1 <= k < s.len() ==> is_white(#[trigger] s[k]),
        cut.0 < cut.1 ==> !is_white(s[cut.0]) && !is_white(s[cut.1 - 1]),
{
    let hi = lemma_trailing(s);
    let t = s.take(hi);
    assert(s.subrange(0, hi) =~= t);
    let lo = lemma_leading(t);
    assert(t.skip(lo) =~= s.subrange(lo, hi));
    assert forall|k: int| 0 <= k < lo implies is_white(#[trigger] s[k]) by {
        assert(t[k] == s[k]);
    }
    if lo < hi {
        assert(t[lo] == s[lo]);
    }
    (lo, hi)
}

proof fn lemma_trailing(s: Seq<char>) -> (hi: int)
    ensures
        0 <= hi <= s.len(),
        without_trailing(s) == s.take(hi),
        forall|k: int| hi <= k < s.len() ==> is_white(#[trigger] s[k]),
        hi > 0 ==> !is_white(s[hi - 1]),
    decreases s.len(),
{
    if s.len() > 0 && is_white(s[s.len() - 1]) {
        let front = s.subrange(0, s.len() - 1);
        let hi = lemma_trailing(front);
        assert(front.take(hi) =~= s.take(hi));
        assert forall|k: int| hi <= k < s.len() implies is_white(#[trigger] s[k]) by {
            if k < front.len() {
                assert(front[k] == s[k]);
            }
        }
        if hi > 0 {
            assert(front[hi - 1] == s[hi - 1]);
        }
        hi
    } else {
        assert(s.take(s.len() as int) =~= s);
        s.len() as int
    }
}

proof fn lemma_leading(s: Seq<char>) -> (lo: int)
    ensures
        0 <= lo <= s.len(),
        without_leading(s) == s.skip(lo),
        forall|k: int| 0 <= k < lo ==> is_white(#[trigger] s[k]),
        lo < s.len() ==> !is_white(s[lo]),
    decreases s.len(),
{
    if s.len() > 0 && is_white(s[0]) {
        let rest = s.subrange(1, s.len() as int);
        let lo = lemma_leading(rest);
        assert(rest.skip(lo) =~= s.skip(lo + 1));
        assert forall|k: int| 0 <= k < lo + 1 implies is_white(#[trigger] s[k]) by {
            if k > 0 {
                assert(rest[k - 1] == s[k]);
            }
        }
        if lo < rest.len() {
            assert(rest[lo] == s[lo + 1]);
        }
        lo + 1
    } else {
        assert(s.skip(0) =~= s);
        0
    }
}

/// Of the first 128 characters, white space are the blank and the five control characters that
/// move a printer's head; letters, digits and signs are none.
pub proof fn white_ascii(c: char)
    requires
        is_ascii(c),
    ensures
        is_white(c) <==> c == ' ' || c == '\t' || c == '\n' || c == '\r' || c == '\u{b}' || c
            == '\u{c}',
{
}

/// The pieces of a text, put together with the character between them, make the text again,
/// and none of them holds the character.
pub proof fn pieces_make_the_text(s: Seq<char>, c: char)
    ensures
        pieces(s, c).len() > 0,
        joined(pieces(s, c), seq![c]) == s,
        forall|i: int| 0 <= i < pieces(s, c).len() ==> !(#[trigger] pieces(s, c)[i]).contains(c),
    decreases s.len(),
{
    lemma_first_of(s, c);
    let at = first_of(s, c);
    if 0 <= at < s.len() {
        let first = s.subrange(0, at);
        let rest = after(s, at + 1);
        pieces_make_the_text(rest, c);
        let tail = pieces(rest, c);
        assert(pieces(s, c) =~= seq![first] + tail);
        lemma_joined_front(first, tail, seq![c]);
        assert(s =~= first + seq![c] + rest);
        assert(!first.contains(c)) by {
            if first.contains(c) {
                let k = choose|k: int| 0 <= k < first.len() && first[k] == c;
                assert(s[k] == c);
            }
        }
        assert forall|i: int| 0 <= i < pieces(s, c).len() implies !(#[trigger] pieces(
            s,
            c,
        )[i]).contains(c) by {
            if i > 0 {
                assert(pieces(s, c)[i] == tail[i - 1]);
            }
        }
    } else {
        assert(!s.contains(c)) by {
            if s.contains(c) {
                let k = choose|k: int| 0 <= k < s.len() && s[k] == c;
                assert(s[k] == c);
            }
        }
    }
}

proof fn lemma_joined_front(first: Seq<char>, tail: Seq<Seq<char>>, sep: Seq<char>)
    requires
        tail.len() > 0,
    ensures
        joined(seq![first] + tail, sep) == first + sep + joined(tail, sep),
    decreases tail.len(),
{
    let all = seq![first] + tail;
    if tail.len() == 1 {
        assert(all.drop_last() =~= seq![first]);
        assert(joined(seq![first], sep) == first);
    } else {
        assert(all.drop_last() =~= seq![first] + tail.drop_last());
        lemma_joined_front(first, tail.drop_last(), sep);
        assert(first + sep + joined(tail.drop_last(), sep) + sep + tail.last() =~= first + sep + (
        joined(tail.drop_last(), sep) + sep + tail.last()));
    }
}

/// A text comes before another by code points: where they differ first, it has the smaller
/// character, or it ends there.
pub open spec fn comes_first(a: Seq<char>, b: Seq<char>) -> bool {
    exists|k: int|
        0 <= k <= a.len() && k < b.len() && #[trigger] a.take(k) == b.take(k) && (k == a.len()
            || a[k] < b[k])
}

/// The order of texts is the one by the first difference.
pub proof fn text_before_by_difference(a: Seq<char>, b: Seq<char>)
    ensures
        text_before(a, b) <==> comes_first(a, b),
    decreases a.len(),
{
    if b.len() > 0 && a.len() > 0 && a[0] == b[0] {
        let (x, y) = (a.subrange(1, a.len() as int), b.subrange(1, b.len() as int));
        text_before_by_difference(x, y);
        if comes_first(x, y) {
            let k = choose|k: int|
                0 <= k <= x.len() && k < y.len() && #[trigger] x.take(k) == y.take(k) && (k
                    == x.len() || x[k] < y[k]);
            assert(a.take(k + 1) =~= seq![a[0]] + x.take(k));
            assert(b.take(k + 1) =~= seq![b[0]] + y.take(k));
            assert(comes_first(a, b));
        }
        if comes_first(a, b) {
            let k = choose|k: int|
                0 <= k <= a.len() && k < b.len() && #[trigger] a.take(k) == b.take(k) && (k
                    == a.len() || a[k] < b[k]);
            assert(k > 0);
            assert(x.take(k - 1) =~= a.take(k).skip(1));
            assert(y.take(k - 1) =~= b.take(k).skip(1));
            assert(comes_first(x, y));
        }
    } else if b.len() > 0 {
        if text_before(a, b) {
            assert(a.take(0) =~= b.take(0));
            assert(comes_first(a, b));
        }
        if comes_first(a, b) {
            let k = choose|k: int|
                0 <= k <= a.len() && k < b.len() && #[trigger] a.take(k) == b.take(k) && (k
                    == a.len() || a[k] < b[k]);
            if k > 0 {
                assert(a.take(k)[0] == b.take(k)[0]);
            }
        }
    }
}

/// A line ends at the first line break, which takes a return in front of it along; the rest is
/// read in the same way, and the last line needs no break.
pub proof fn lines_by_breaks(line: Seq<char>, rest: Seq<char>)
    requires
        !line.contains('\n'),
    ensures
        lines_of(line + seq!['\n'] + rest) == seq![without_return(line)] + lines_of(rest),
        line.len() > 0 ==> lines_of(line) == seq![line],
        lines_of(Seq::<char>::empty()).len() == 0,
{
    let s = line + seq!['\n'] + rest;
    let at = line.len() as int;
    assert forall|k: int| 0 <= k < at implies s[k] != '\n' by {
        assert(s[k] == line[k]);
        assert(line.contains(line[k]));
    }
    lemma_first_of_is(s, '\n', at);
    assert(s.subrange(0, at) =~= line);
    assert(after(s, at + 1) =~= rest);
    assert forall|k: int| 0 <= k < at implies line[k] != '\n' by {
        assert(line.contains(line[k]));
    }
    lemma_first_of_is(line, '\n', at);
}

/// One return at the end is taken off, and nothing else.
pub proof fn return_is_taken_off(line: Seq<char>)
    ensures
        without_return(line + seq!['\r']) == line,
        line.len() == 0 || line.last() != '\r' ==> without_return(line) == line,
{
    let s = line + seq!['\r'];
    assert(s.subrange(0, s.len() - 1) =~= line);
}

/// Every occurrence of a character is replaced, and nothing else.
pub proof fn char_is_replaced(s: Seq<char>, old_char: char, new_char: char, i: int)
    requires
        0 <= i < s.len(),
    ensures
        char_replaced(s, old_char, new_char).len() == s.len(),
        s[i] == old_char ==> char_replaced(s, old_char, new_char)[i] == new_char,
        s[i] != old_char ==> char_replaced(s, old_char, new_char)[i] == s[i],
{
}

/// A character is taken off at an end as often as it stands there.
pub proof fn ends_are_taken_off(s: Seq<char>, c: char)
    ensures
        without_tail(s + seq![c], c) == without_tail(s, c),
        s.len() == 0 || s.last() != c ==> without_tail(s, c) == s,
        without_head(seq![c] + s, c) == without_head(s, c),
        s.len() == 0 || s[0] != c ==> without_head(s, c) == s,
{
    let t = s + seq![c];
    assert(t.subrange(0, t.len() - 1) =~= s);
    let h = seq![c] + s;
    assert(h.subrange(1, h.len() as int) =~= s);
}

/// Texts are joined with the separator between any two of them, and nowhere else.
pub proof fn joined_one_by_one(parts: Seq<Seq<char>>, part: Seq<char>, sep: Seq<char>)
    ensures
        joined(Seq::<Seq<char>>::empty(), sep) == Seq::<char>::empty(),
        joined(seq![part], sep) == part,
        parts.len() > 0 ==> joined(parts + seq![part], sep) == joined(parts, sep) + sep + part,
{
    if parts.len() > 0 {
        assert((parts + seq![part]).drop_last() =~= parts);
    }
}

/// Splitting a text behind its first separator is splitting what stands before and behind.
pub proof fn pieces_by_separators(a: Seq<char>, c: char, b: Seq<char>)
    requires
        !a.contains(c),
    ensures
        pieces(a + seq![c] + b, c) == seq![a] + pieces(b, c),
        pieces(a, c) == seq![a],
{
    let s = a + seq![c] + b;
    let at = a.len() as int;
    assert forall|k: int| 0 <= k < at implies s[k] != c by {
        assert(s[k] == a[k]);
        assert(a.contains(a[k]));
    }
    lemma_first_of_is(s, c, at);
    assert(s.subrange(0, at) =~= a);
    assert(after(s, at + 1) =~= b);
    assert forall|k: int| 0 <= k < at implies a[k] != c by {
        assert(a.contains(a[k]));
    }
    lemma_first_of_is(a, c, at);
}

} // verus!
