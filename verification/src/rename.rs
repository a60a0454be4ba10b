//! Renaming many files at once.

use crate::entry;
use crate::number;
use crate::text;
use vstd::prelude::*;

verus! {

broadcast use vstd::string::group_string_axioms;

/// What happens to the letters of new names.
#[derive(Clone, Copy, Debug, PartialEq, Eq, Structural)]
pub enum RenameCase {
    Unchanged,
    Upper,
    Lower,
    Capitalize,
}

// ---------------------------------------------------------------------------
// Outside regular expressions
// ---------------------------------------------------------------------------

/// A compiled regular expression of the crate `regex`.
#[verifier::external_type_specification]
#[verifier::external_body]
pub struct ExRegex(regex::Regex);

/// The pattern that a regular expression was compiled from.
pub uninterp spec fn regex_source(re: regex::Regex) -> Seq<char>;

/// What `regex::Regex::new` complains of a pattern; none where it is valid.
pub uninterp spec fn regex_error(pattern: Seq<char>) -> Option<Seq<char>>;

/// What `regex::Regex::replace_all` makes of a text, with the pattern and the replacement.
pub uninterp spec fn regex_replaced(
    pattern: Seq<char>,
    haystack: Seq<char>,
    replacement: Seq<char>,
) -> Seq<char>;

/// `regex::Regex::new`, the error as text: whether a pattern is valid, and what is wrong with
/// it, is a function of the pattern.
#[verifier::external_body]
fn compile(pattern: &str) -> (r: Result<regex::Regex, String>)
    ensures
        r is Err == regex_error(pattern@) is Some,
        r matches Err(e) ==> e@ == regex_error(pattern@)->0,
        r matches Ok(re) ==> regex_source(re) == pattern@,
{
    regex::Regex::new(pattern).map_err(|e| e.to_string())
}

/// `regex::Regex::replace_all`: the result is a function of the pattern, the text and the
/// replacement.
#[verifier::external_body]
fn replace_all(re: &regex::Regex, haystack: &str, replacement: &str) -> (r: String)
    ensures
        r@ == regex_replaced(regex_source(*re), haystack@, replacement@),
{
    re.replace_all(haystack, replacement).into_owned()
}

// ---------------------------------------------------------------------------
// Models
// ---------------------------------------------------------------------------

/// Whether a word starts behind a character.
pub open spec fn starts_word(c: char) -> bool {
    c == ' ' || c == '_' || c == '-' || c == '.'
}

/// The first letter of each word in upper case, everything else in lower case. A word starts
/// at the beginning, where `start` says so, and behind a space, an underscore, a hyphen and a
/// dot.
pub open spec fn capitalized(s: Seq<char>, start: bool) -> Seq<char>
    decreases s.len(),
{
    if s.len() == 0 {
        seq![]
    } else if start && text::char_alphabetic(s[0]) {
        text::char_upper(s[0]) + capitalized(s.drop_first(), false)
    } else {
        text::char_lower(s[0]) + capitalized(s.drop_first(), starts_word(s[0]))
    }
}

/// The first letter of each word in upper case, everything else in lower case, for texts of the
/// first 128 characters.
pub open spec fn ascii_capitalized(s: Seq<char>) -> Seq<char> {
    Seq::new(
        s.len(),
        |i: int|
            if i == 0 || starts_word(s[i - 1]) {
                text::ascii_upper(s[i])
            } else {
                text::ascii_lower(s[i])
            },
    )
}

/// Whether a text is made of the first 128 characters.
pub open spec fn all_ascii(s: Seq<char>) -> bool {
    forall|i: int| 0 <= i < s.len() ==> text::is_ascii(#[trigger] s[i])
}

/// Only the case of letters changes where the words of a text are capitalized.
pub proof fn capitalizing_changes_case(s: Seq<char>)
    ensures
        ascii_capitalized(s).len() == s.len(),
        ascii_capitalized(s).map_values(|c: char| text::ascii_lower(c)) == s.map_values(
            |c: char| text::ascii_lower(c),
        ),
{
    let lower = |c: char| text::ascii_lower(c);
    assert(ascii_capitalized(s).map_values(lower) =~= s.map_values(lower));
}

/// Capitalizing the words of a text a second time changes nothing.
pub proof fn capitalizing_twice(s: Seq<char>)
    ensures
        ascii_capitalized(ascii_capitalized(s)) == ascii_capitalized(s),
{
    let once = ascii_capitalized(s);
    assert forall|i: int| 0 <= i < s.len() implies starts_word(#[trigger] once[i]) == starts_word(
        s[i],
    ) by {}
    assert(ascii_capitalized(once) =~= once);
}

/// The case that the letters of a text had makes no difference to its capitalized words.
pub proof fn capitalizing_forgets_case(s: Seq<char>)
    ensures
        ascii_capitalized(s.map_values(|c: char| text::ascii_upper(c))) == ascii_capitalized(s),
{
    let upper = s.map_values(|c: char| text::ascii_upper(c));
    assert forall|i: int| 0 <= i < s.len() implies starts_word(#[trigger] upper[i]) == starts_word(
        s[i],
    ) by {}
    assert(ascii_capitalized(upper) =~= ascii_capitalized(s));
}

/// What is asked of new names.
#[verifier::ext_equal]
pub struct RenamePlan {
    pub pattern: Seq<char>,
    pub replacement: Seq<char>,
    pub use_regex: bool,
    pub mask: Seq<char>,
    pub counter_start: int,
    pub counter_step: int,
    pub counter_width: int,
    pub case: RenameCase,
}

impl RenamePlan {
    /// Whether a mask is given.
    pub open spec fn has_mask(self) -> bool {
        text::trimmed(self.mask).len() > 0
    }

    /// The number of the file at `index`.
    pub open spec fn counter(self, index: int) -> int {
        self.counter_start + index * self.counter_step
    }

    /// How many characters the number takes at least.
    pub open spec fn width(self) -> int {
        if self.counter_width < 1 {
            1
        } else if self.counter_width > 8 {
            8
        } else {
            self.counter_width
        }
    }

    /// The mask with its tokens filled in: the name without extension, the extension, and
    /// the number.
    pub open spec fn from_mask(self, name: Seq<char>, index: int) -> Seq<char> {
        if self.has_mask() {
            let ext = match entry::extension(name) {
                Some(e) => e,
                None => seq![],
            };
            text::replaced(
                text::replaced(
                    text::replaced(self.mask, "[N]"@, entry::stem(name)),
                    "[E]"@,
                    ext,
                ),
                "[C]"@,
                number::padded_text(self.counter(index), self.width()),
            )
        } else {
            name
        }
    }

    /// A name with what is looked for replaced.
    pub open spec fn with_replacement(self, name: Seq<char>) -> Seq<char> {
        if self.pattern.len() == 0 {
            name
        } else if self.use_regex {
            regex_replaced(self.pattern, name, self.replacement)
        } else {
            text::replaced(name, self.pattern, self.replacement)
        }
    }

    /// A name with its letters changed.
    pub open spec fn with_case(self, name: Seq<char>) -> Seq<char> {
        match self.case {
            RenameCase::Unchanged => name,
            RenameCase::Upper => text::uppercase(name),
            RenameCase::Lower => text::lowercase(name),
            RenameCase::Capitalize => capitalized(name, true),
        }
    }

    /// The new name of the file at `index`.
    pub open spec fn new_name(self, name: Seq<char>, index: int) -> Seq<char> {
        self.with_case(self.with_replacement(self.from_mask(name, index)))
    }

    /// What is wrong with the plan: a regular expression that is not valid.
    pub open spec fn problem(self) -> Option<Seq<char>> {
        if self.use_regex && self.pattern.len() > 0 {
            match regex_error(self.pattern) {
                Some(e) => Some("Neplatný regex: "@ + e),
                None => None,
            }
        } else {
            None
        }
    }

    /// The old and new names of files.
    pub open spec fn preview(self, names: Seq<Seq<char>>) -> Seq<(Seq<char>, Seq<char>)> {
        Seq::new(names.len(), |i: int| (names[i], self.new_name(names[i], i)))
    }

    /// Whether the numbers of `n` files can be held.
    pub open spec fn counts(self, n: int) -> bool {
        n > 0 && self.has_mask() ==> {
            &&& n <= i64::MAX
            &&& i64::MIN <= (n - 1) * self.counter_step <= i64::MAX
            &&& i64::MIN <= self.counter(n - 1) <= i64::MAX
        }
    }
}

/// A plan that asks for nothing leaves every name as it is.
pub proof fn empty_plan_keeps_names(plan: RenamePlan, name: Seq<char>, index: int)
    requires
        !plan.has_mask(),
        plan.pattern.len() == 0,
        plan.case == RenameCase::Unchanged,
    ensures
        plan.new_name(name, index) == name,
        plan.problem() is None,
{
}

/// A preview has one line for each file, with the file's own name as the old one.
pub proof fn preview_covers_files(plan: RenamePlan, names: Seq<Seq<char>>, i: int)
    requires
        0 <= i < names.len(),
    ensures
        plan.preview(names).len() == names.len(),
        plan.preview(names)[i].0 == names[i],
{
}

proof fn lemma_counter_fits(plan: RenamePlan, n: int, i: int)
    requires
        plan.counts(n),
        plan.has_mask(),
        i64::MIN <= plan.counter_start <= i64::MAX,
        0 <= i < n,
    ensures
        i64::MIN <= i * plan.counter_step <= i64::MAX,
        i64::MIN <= plan.counter(i) <= i64::MAX,
{
    let step = plan.counter_step;
    if step >= 0 {
        assert(0 <= i * step <= (n - 1) * step) by (nonlinear_arith)
            requires
                0 <= i <= n - 1,
                step >= 0,
        ;
    } else {
        assert((n - 1) * step <= i * step <= 0) by (nonlinear_arith)
            requires
                0 <= i <= n - 1,
                step < 0,
        ;
    }
}

// ---------------------------------------------------------------------------
// Executable renaming
// ---------------------------------------------------------------------------

fn append_chars(s: &mut String, chars: &Vec<char>)
    ensures
        final(s)@ == old(s)@ + chars@,
{
    let mut i: usize = 0;
    assert(s@ + chars@.take(0) =~= s@);
    while i < chars.len()
        invariant
            i <= chars.len(),
            s@ == old(s)@ + chars@.take(i as int),
        decreases chars.len() - i,
    {
        s.push(chars[i]);
        assert(old(s)@ + chars@.take(i + 1) =~= (old(s)@ + chars@.take(i as int)).push(
            chars@[i as int],
        ));
        i += 1;
    }
    assert(chars@.take(chars.len() as int) == chars@);
}

/// The first letter of each word in upper case, everything else in lower case.
pub fn capitalize_words(s: &str) -> (r: String)
    ensures
        r@ == capitalized(s@, true),
        all_ascii(s@) ==> r@ == ascii_capitalized(s@),
{
    let v = text::chars_of(s);
    let mut out = String::new();
    let mut start = true;
    let mut i: usize = 0;
    assert(v@.skip(0) == v@);
    assert(out@ + capitalized(v@.skip(0), true) =~= capitalized(s@, true));
    assert(out@ =~= ascii_capitalized(s@).take(0));
    while i < v.len()
        invariant
            i <= v.len(),
            v@ == s@,
            out@ + capitalized(v@.skip(i as int), start) == capitalized(s@, true),
            all_ascii(s@) ==> {
                &&& out@ == ascii_capitalized(s@).take(i as int)
                &&& start == (i == 0 || starts_word(s@[i - 1]))
            },
        decreases v.len() - i,
    {
        let c = v[i];
        assert(all_ascii(s@) ==> text::is_ascii(c));
        let ghost rest = v@.skip(i as int);
        let ghost before = out@;
        assert(rest.drop_first() == v@.skip(i + 1));
        if start && text::is_alphabetic(c) {
            let up = text::upper_chars(c);
            append_chars(&mut out, &up);
            start = false;
            assert(out@ + capitalized(v@.skip(i + 1), start) =~= before + (up@ + capitalized(
                v@.skip(i + 1),
                start,
            )));
        } else {
            let low = text::lower_chars(c);
            append_chars(&mut out, &low);
            start = c == ' ' || c == '_' || c == '-' || c == '.';
            assert(out@ + capitalized(v@.skip(i + 1), start) =~= before + (low@ + capitalized(
                v@.skip(i + 1),
                start,
            )));
        }
        proof {
            let all = ascii_capitalized(s@);
            if all_ascii(s@) {
                assert(out@ =~= before.push(all[i as int]));
                assert(all.take(i + 1) =~= all.take(i as int).push(all[i as int]));
            }
        }
        i += 1;
    }
    assert(out@ + capitalized(v@.skip(v.len() as int), start) =~= out@);
    assert(ascii_capitalized(s@).take(s@.len() as int) =~= ascii_capitalized(s@));
    out
}

/// The state of the window for renaming many files.
#[derive(Debug)]
pub struct RenameBox {
    pub show: bool,
    pub pattern: String,
    pub replacement: String,
    pub use_regex: bool,
    pub error: Option<String>,
    pub mask: String,
    pub counter_start: i64,
    pub counter_step: i64,
    pub counter_width: usize,
    pub case: RenameCase,
}

impl RenameBox {
    /// What the window asks of new names.
    pub open spec fn plan(&self) -> RenamePlan {
        RenamePlan {
            pattern: self.pattern@,
            replacement: self.replacement@,
            use_regex: self.use_regex,
            mask: self.mask@,
            counter_start: self.counter_start as int,
            counter_step: self.counter_step as int,
            counter_width: self.counter_width as int,
            case: self.case,
        }
    }

    /// The window before anything was asked.
    pub fn new() -> (r: RenameBox)
        ensures
            !r.show,
            r.error is None,
            r.plan() == (RenamePlan {
                pattern: seq![],
                replacement: seq![],
                use_regex: false,
                mask: seq![],
                counter_start: 1,
                counter_step: 1,
                counter_width: 2,
                case: RenameCase::Unchanged,
            }),
    {
        RenameBox {
            show: false,
            pattern: String::new(),
            replacement: String::new(),
            use_regex: false,
            error: None,
            mask: String::new(),
            counter_start: 1,
            counter_step: 1,
            counter_width: 2,
            case: RenameCase::Unchanged,
        }
    }

    /// Opens the window.
    pub fn open(&mut self)
        ensures
            *final(self) == (RenameBox { show: true, error: None, ..*old(self) }),
    {
        self.error = None;
        self.show = true;
    }

    /// Closes the window without renaming anything.
    pub fn cancel(&mut self)
        ensures
            *final(self) == (RenameBox { show: false, error: None, ..*old(self) }),
    {
        self.show = false;
        self.error = None;
    }

    /// Whether the numbers of `n` files can be held.
    pub fn counter_fits(&self, n: usize) -> (r: bool)
        ensures
            r == self.plan().counts(n as int),
    {
        let mask = text::trim(self.mask.as_str());
        if n == 0 || mask.as_str().unicode_len() == 0 {
            return true;
        }
        if n as u64 > 0x7fff_ffff_ffff_ffff {
            return false;
        }
        let last: i128 = (n - 1) as i128;
        let step: i128 = self.counter_step as i128;
        proof {
            assert(-0x8000_0000_0000_0000 * 0x7fff_ffff_ffff_ffff <= last * step
                <= 0x7fff_ffff_ffff_ffff * 0x7fff_ffff_ffff_ffff) by (nonlinear_arith)
                requires
                    0 <= last <= 0x7fff_ffff_ffff_ffff,
                    -0x8000_0000_0000_0000 <= step <= 0x7fff_ffff_ffff_ffff,
            ;
        }
        let product: i128 = last * step;
        let sum: i128 = self.counter_start as i128 + product;
        product >= i64::MIN as i128 && product <= i64::MAX as i128 && sum >= i64::MIN as i128
            && sum <= i64::MAX as i128
    }

    /// The name that the mask gives to the file at `index` of `n`.
    fn name_from_mask(&self, name: &str, index: usize, n: Ghost<int>) -> (r: String)
        requires
            self.plan().counts(n@),
            index < n@,
        ensures
            r@ == self.plan().from_mask(name@, index as int),
    {
        let given = text::trim(self.mask.as_str());
        if given.as_str().unicode_len() == 0 {
            return name.to_owned();
        }
        let stem = entry::stem_of(name);
        let ext = match entry::extension_of(name) {
            Some(e) => e,
            None => String::new(),
        };
        proof {
            lemma_counter_fits(self.plan(), n@, index as int);
        }
        let offset: i64 = index as i64 * self.counter_step;
        let value: i64 = self.counter_start + offset;
        let width: usize = if self.counter_width < 1 {
            1
        } else if self.counter_width > 8 {
            8
        } else {
            self.counter_width
        };
        let counter = number::padded(value, width);
        proof {
            reveal_strlit("[N]");
            reveal_strlit("[E]");
            reveal_strlit("[C]");
        }
        let with_stem = text::replace(self.mask.as_str(), "[N]", stem.as_str());
        let with_ext = text::replace(with_stem.as_str(), "[E]", ext.as_str());
        text::replace(with_ext.as_str(), "[C]", counter.as_str())
    }

    /// A name with its letters changed as the window asks.
    pub fn change_case(&self, name: String) -> (r: String)
        ensures
            r@ == self.plan().with_case(name@),
    {
        match self.case {
            RenameCase::Unchanged => name,
            RenameCase::Upper => text::to_upper(name.as_str()),
            RenameCase::Lower => text::to_lower(name.as_str()),
            RenameCase::Capitalize => capitalize_words(name.as_str()),
        }
    }

    /// The old and new names of files, or what is wrong with the regular expression.
    pub fn rename_preview(&self, names: &Vec<String>) -> (r: Result<Vec<(String, String)>, String>)
        requires
            self.plan().counts(names@.len() as int),
        ensures
            r is Err == self.plan().problem() is Some,
            r matches Err(e) ==> e@ == self.plan().problem()->0,
            r matches Ok(lines) ==> lines.deep_view() == self.plan().preview(names.deep_view()),
    {
        let regex = if self.use_regex && self.pattern.as_str().unicode_len() > 0 {
            match compile(self.pattern.as_str()) {
                Ok(re) => Some(re),
                Err(e) => {
                    let mut msg = "Neplatný regex: ".to_owned();
                    msg.append(e.as_str());
                    return Err(msg);
                },
            }
        } else {
            None
        };
        let mut out: Vec<(String, String)> = Vec::new();
        let mut i: usize = 0;
        while i < names.len()
            invariant
                i <= names.len(),
                self.plan().counts(names@.len() as int),
                regex is Some == (self.use_regex && self.pattern@.len() > 0),
                regex matches Some(re) ==> regex_source(re) == self.pattern@,
                out.len() == i,
                forall|k: int|
                    0 <= k < i ==> (#[trigger] out[k]).0@ == names[k]@ && out[k].1@
                        == self.plan().new_name(names[k]@, k),
            decreases names.len() - i,
        {
            let from_mask = self.name_from_mask(
                names[i].as_str(),
                i,
                Ghost(names@.len() as int),
            );
            let replaced = if self.pattern.as_str().unicode_len() > 0 {
                match &regex {
                    Some(re) => replace_all(re, from_mask.as_str(), self.replacement.as_str()),
                    None => text::replace(
                        from_mask.as_str(),
                        self.pattern.as_str(),
                        self.replacement.as_str(),
                    ),
                }
            } else {
                from_mask
            };
            let new_name = self.change_case(replaced);
            out.push((names[i].clone(), new_name));
            i += 1;
        }
        assert(out.deep_view() =~= self.plan().preview(names.deep_view()));
        Ok(out)
    }

    /// Takes in that a file could not be renamed.
    pub fn rename_failed(&mut self, old_name: &str, reason: &str)
        ensures
            *final(self) == (RenameBox { error: final(self).error, ..*old(self) }),
            final(self).error.deep_view() == Some(old_name@ + ": "@ + reason@),
    {
        let mut msg = old_name.to_owned();
        msg.append(": ");
        msg.append(reason);
        self.error = Some(msg);
    }

    /// Closes the window once the files were renamed; after an error it stays open.
    pub fn finish(&mut self)
        ensures
            old(self).error is Some ==> *final(self) == *old(self),
            old(self).error is None ==> {
                &&& *final(self) == (RenameBox {
                    show: false,
                    pattern: final(self).pattern,
                    replacement: final(self).replacement,
                    mask: final(self).mask,
                    ..*old(self)
                })
                &&& final(self).pattern@.len() == 0
                &&& final(self).replacement@.len() == 0
                &&& final(self).mask@.len() == 0
            },
    {
        if self.error.is_none() {
            self.show = false;
            self.pattern = String::new();
            self.replacement = String::new();
            self.mask = String::new();
        }
    }
}

/// The lines of a preview that change a name.
pub open spec fn changes(lines: Seq<(Seq<char>, Seq<char>)>) -> Seq<(Seq<char>, Seq<char>)>
    decreases lines.len(),
{
    if lines.len() == 0 {
        seq![]
    } else {
        let front = changes(lines.drop_last());
        if lines.last().0 != lines.last().1 {
            front.push(lines.last())
        } else {
            front
        }
    }
}

/// Files whose name stays the same are not renamed.
pub proof fn changes_differ(lines: Seq<(Seq<char>, Seq<char>)>)
    ensures
        forall|i: int|
            0 <= i < changes(lines).len() ==> (#[trigger] changes(lines)[i]).0 != changes(
                lines,
            )[i].1,
    decreases lines.len(),
{
    if lines.len() > 0 {
        changes_differ(lines.drop_last());
        let front = changes(lines.drop_last());
        assert forall|i: int| 0 <= i < changes(lines).len() implies (#[trigger] changes(lines)[i]).0
            != changes(lines)[i].1 by {
            if i < front.len() {
                assert(changes(lines)[i] == front[i]);
            }
        }
    }
}

/// The lines of a preview that change a name.
pub fn changed_names(lines: Vec<(String, String)>) -> (r: Vec<(String, String)>)
    ensures
        r.deep_view() == changes(lines.deep_view()),
{
    let ghost all = lines.deep_view();
    let mut out: Vec<(String, String)> = Vec::new();
    let mut i: usize = 0;
    assert(all.take(0) =~= seq![]);
    assert(out.deep_view() =~= changes(all.take(0)));
    while i < lines.len()
        invariant
            i <= lines.len(),
            all == lines.deep_view(),
            out.deep_view() == changes(all.take(i as int)),
        decreases lines.len() - i,
    {
        let ghost before = out.deep_view();
        proof {
            assert(all.take(i + 1).drop_last() == all.take(i as int));
            assert(all.take(i + 1).last() == lines[i as int].deep_view());
        }
        if !text::same(lines[i].0.as_str(), lines[i].1.as_str()) {
            let line = (lines[i].0.clone(), lines[i].1.clone());
            out.push(line);
            assert(out.deep_view() =~= before.push(line.deep_view()));
        }
        i += 1;
    }
    assert(all.take(all.len() as int) == all);
    out
}

/// Whether a plan does nothing but replace one plain text by another.
pub open spec fn only_replaces(plan: RenamePlan) -> bool {
    &&& plan.pattern.len() > 0
    &&& !plan.use_regex
    &&& !plan.has_mask()
    &&& plan.case == RenameCase::Unchanged
}

/// A plan that only replaces puts the replacement, be it empty, in the place of the first
/// occurrence of the pattern and treats what follows in the same way.
pub proof fn every_occurrence_is_replaced(
    plan: RenamePlan,
    before: Seq<char>,
    behind: Seq<char>,
    index: int,
)
    requires
        only_replaces(plan),
        forall|k: int|
            0 <= k < before.len() ==> #[trigger] (before + plan.pattern + behind).subrange(
                k,
                k + plan.pattern.len(),
            ) != plan.pattern,
    ensures
        plan.new_name(before + plan.pattern + behind, index) == before + plan.replacement
            + plan.new_name(behind, index),
{
    text::replaced_at_the_first(before, plan.pattern, behind, plan.replacement);
}

/// A plan that only replaces keeps a name in which the pattern stands nowhere.
pub proof fn names_without_the_pattern_stay(plan: RenamePlan, name: Seq<char>, index: int)
    requires
        only_replaces(plan),
        forall|a: Seq<char>, b: Seq<char>| name != #[trigger] (a + plan.pattern + b),
    ensures
        plan.new_name(name, index) == name,
{
    text::replaced_where_absent(name, plan.pattern, plan.replacement);
}

proof fn lemma_first_occurrence(s: Seq<char>, part: Seq<char>, at: int) -> (k: int)
    requires
        0 <= at,
        at + part.len() <= s.len(),
        s.subrange(at, at + part.len()) == part,
    ensures
        0 <= k <= at,
        s.subrange(k, k + part.len()) == part,
        forall|i: int| 0 <= i < k ==> #[trigger] s.subrange(i, i + part.len()) != part,
    decreases at,
{
    if exists|i: int| 0 <= i < at && #[trigger] s.subrange(i, i + part.len()) == part {
        let i = choose|i: int| 0 <= i < at && #[trigger] s.subrange(i, i + part.len()) == part;
        lemma_first_occurrence(s, part, i)
    } else {
        at
    }
}

/// Where the replacement holds no character of the pattern, a name that holds the pattern gets
/// another name.
pub proof fn names_with_the_pattern_change(
    plan: RenamePlan,
    before: Seq<char>,
    behind: Seq<char>,
    index: int,
)
    requires
        only_replaces(plan),
        forall|i: int| 0 <= i < plan.pattern.len() ==> !plan.replacement.contains(#[trigger] plan.pattern[i]),
    ensures
        plan.new_name(before + plan.pattern + behind, index) != before + plan.pattern + behind,
{
    let p = plan.pattern;
    let name = before + p + behind;
    assert(name.subrange(before.len() as int, (before.len() + p.len()) as int) =~= p);
    let k = lemma_first_occurrence(name, p, before.len() as int);
    let a = name.take(k);
    let b = name.skip(k + p.len());
    assert(name =~= a + p + b);
    assert forall|i: int| 0 <= i < a.len() implies #[trigger] (a + p + b).subrange(i, i + p.len())
        != p by {
        assert(name.subrange(i, i + p.len()) != p);
    }
    every_occurrence_is_replaced(plan, a, b, index);
    lemma_fewer_occurrences(b, p, plan.replacement, p[0]);
    let new = plan.new_name(name, index);
    assert(new == a + plan.replacement + text::replaced(b, p, plan.replacement));
    vstd::seq_lib::lemma_multiset_commutative(a, plan.replacement);
    vstd::seq_lib::lemma_multiset_commutative(
        a + plan.replacement,
        text::replaced(b, p, plan.replacement),
    );
    vstd::seq_lib::lemma_multiset_commutative(a, p);
    vstd::seq_lib::lemma_multiset_commutative(a + p, b);
    assert(p.contains(p[0]));
    p.to_multiset_ensures();
    plan.replacement.to_multiset_ensures();
    assert(p.to_multiset().count(p[0]) > 0);
    assert(!plan.replacement.contains(p[0]));
    assert(plan.replacement.to_multiset().count(p[0]) == 0);
    assert(new.to_multiset().count(p[0]) < name.to_multiset().count(p[0]));
}

proof fn lemma_fewer_occurrences(s: Seq<char>, from: Seq<char>, to: Seq<char>, c: char)
    requires
        !to.contains(c),
    ensures
        text::replaced(s, from, to).to_multiset().count(c) <= s.to_multiset().count(c),
    decreases s.len(),
{
    to.to_multiset_ensures();
    if s.len() > 0 && from.len() > 0 {
        if text::begins_with(s, from) {
            let rest = text::after(s, from.len() as int);
            lemma_fewer_occurrences(rest, from, to, c);
            vstd::seq_lib::lemma_multiset_commutative(to, text::replaced(rest, from, to));
            assert(s =~= from + rest);
            vstd::seq_lib::lemma_multiset_commutative(from, rest);
        } else {
            let rest = text::after(s, 1);
            lemma_fewer_occurrences(rest, from, to, c);
            let head = seq![s[0]];
            vstd::seq_lib::lemma_multiset_commutative(head, text::replaced(rest, from, to));
            assert(s =~= head + rest);
            vstd::seq_lib::lemma_multiset_commutative(head, rest);
        }
    }
}

/// A mask with its placeholders filled in: the stem for `[N]`, the ending for `[E]`, the number
/// for `[C]`.
pub open spec fn filled(
    mask: Seq<char>,
    stem: Seq<char>,
    ext: Seq<char>,
    number: Seq<char>,
) -> Seq<char> {
    text::replaced(
        text::replaced(text::replaced(mask, "[N]"@, stem), "[E]"@, ext),
        "[C]"@,
        number,
    )
}

proof fn lemma_tokens()
    ensures
        "[N]"@ == seq!['[', 'N', ']'],
        "[E]"@ == seq!['[', 'E', ']'],
        "[C]"@ == seq!['[', 'C', ']'],
{
    reveal_strlit("[N]");
    reveal_strlit("[E]");
    reveal_strlit("[C]");
    assert("[N]"@ =~= seq!['[', 'N', ']']);
    assert("[E]"@ =~= seq!['[', 'E', ']']);
    assert("[C]"@ =~= seq!['[', 'C', ']']);
}

proof fn lemma_other_token(x: char, y: char, b: Seq<char>, to: Seq<char>)
    requires
        x != y,
        x != '[',
    ensures
        text::replaced(seq!['[', x, ']'] + b, seq!['[', y, ']'], to) == seq!['[', x, ']']
            + text::replaced(b, seq!['[', y, ']'], to),
{
    let from = seq!['[', y, ']'];
    let s = seq!['[', x, ']'] + b;
    if text::begins_with(s, from) {
        assert(s.subrange(0, 3)[1] == x);
    }
    let tail = seq![x, ']'];
    assert(text::after(s, 1) =~= tail + b);
    text::replaced_behind(tail, b, from, to);
    assert(seq!['['] + (tail + text::replaced(b, from, to)) =~= seq!['[', x, ']']
        + text::replaced(b, from, to));
}

proof fn lemma_at_token(a: Seq<char>, x: char, b: Seq<char>, to: Seq<char>)
    requires
        !a.contains('['),
    ensures
        text::replaced(a + seq!['[', x, ']'] + b, seq!['[', x, ']'], to) == a + to
            + text::replaced(b, seq!['[', x, ']'], to),
{
    let from = seq!['[', x, ']'];
    let s = a + from + b;
    assert forall|k: int| 0 <= k < a.len() implies #[trigger] s.subrange(k, k + from.len())
        != from by {
        assert(s.subrange(k, k + from.len())[0] == a[k]);
        assert(a.contains(a[k]));
    }
    text::replaced_at_the_first(a, from, b, to);
}

proof fn lemma_past_token(a: Seq<char>, x: char, y: char, b: Seq<char>, to: Seq<char>)
    requires
        !a.contains('['),
        x != y,
        x != '[',
    ensures
        text::replaced(a + seq!['[', x, ']'] + b, seq!['[', y, ']'], to) == a + seq!['[', x, ']']
            + text::replaced(b, seq!['[', y, ']'], to),
{
    let tok = seq!['[', x, ']'];
    let from = seq!['[', y, ']'];
    assert(a + tok + b =~= a + (tok + b));
    text::replaced_behind(a, tok + b, from, to);
    lemma_other_token(x, y, b, to);
    assert(a + (tok + text::replaced(b, from, to)) =~= a + tok + text::replaced(b, from, to));
}

/// A mask is filled in from the left: text without brackets stays, each placeholder gives way to
/// its value, whatever stands around it.
pub proof fn placeholders_are_filled_in(
    a: Seq<char>,
    b: Seq<char>,
    stem: Seq<char>,
    ext: Seq<char>,
    number: Seq<char>,
)
    requires
        !a.contains('['),
        !stem.contains('['),
        !ext.contains('['),
        !number.contains('['),
    ensures
        filled(a, stem, ext, number) == a,
        filled(a + seq!['[', 'N', ']'] + b, stem, ext, number) == a + stem + filled(
            b,
            stem,
            ext,
            number,
        ),
        filled(a + seq!['[', 'E', ']'] + b, stem, ext, number) == a + ext + filled(
            b,
            stem,
            ext,
            number,
        ),
        filled(a + seq!['[', 'C', ']'] + b, stem, ext, number) == a + number + filled(
            b,
            stem,
            ext,
            number,
        ),
{
    lemma_tokens();
    let (tn, te, tc) = ("[N]"@, "[E]"@, "[C]"@);
    let e = Seq::<char>::empty();
    assert(a + e =~= a);
    text::replaced_behind(a, e, tn, stem);
    text::replaced_behind(a, e, te, ext);
    text::replaced_behind(a, e, tc, number);
    assert(text::replaced(e, tn, stem) =~= e);
    assert(text::replaced(e, te, ext) =~= e);
    assert(text::replaced(e, tc, number) =~= e);
    let b1 = text::replaced(b, tn, stem);
    let b2 = text::replaced(b1, te, ext);
    lemma_at_token(a, 'N', b, stem);
    lemma_no_bracket(a, stem);
    text::replaced_behind(a + stem, b1, te, ext);
    text::replaced_behind(a + stem, b2, tc, number);
    lemma_past_token(a, 'E', 'N', b, stem);
    lemma_at_token(a, 'E', b1, ext);
    lemma_no_bracket(a, ext);
    text::replaced_behind(a + ext, b2, tc, number);
    lemma_past_token(a, 'C', 'N', b, stem);
    lemma_past_token(a, 'C', 'E', b1, ext);
    lemma_at_token(a, 'C', b2, number);
}

proof fn lemma_no_bracket(a: Seq<char>, b: Seq<char>)
    requires
        !a.contains('['),
        !b.contains('['),
    ensures
        !(a + b).contains('['),
{
    if (a + b).contains('[') {
        let k = choose|k: int| 0 <= k < (a + b).len() && (a + b)[k] == '[';
        if k < a.len() {
            assert(a[k] == '[');
        } else {
            assert(b[k - a.len()] == '[');
        }
    }
}

/// A plan with a mask and nothing else gives the mask filled in with the parts of the name and
/// the number of the file.
pub proof fn mask_makes_the_name(plan: RenamePlan, name: Seq<char>, index: int)
    requires
        plan.pattern.len() == 0,
        plan.case == RenameCase::Unchanged,
        exists|i: int| 0 <= i < plan.mask.len() && !text::is_white(#[trigger] plan.mask[i]),
    ensures
        plan.new_name(name, index) == filled(
            plan.mask,
            entry::stem(name),
            if entry::extension(name) is Some {
                entry::extension(name)->0
            } else {
                Seq::empty()
            },
            number::padded_text(plan.counter_start + index * plan.counter_step, plan.width()),
        ),
{
    let cut = text::trimmed_is_the_core(plan.mask);
    let i = choose|i: int| 0 <= i < plan.mask.len() && !text::is_white(#[trigger] plan.mask[i]);
    assert(cut.0 <= i < cut.1);
}

/// A mask of blanks alone is no mask: the name stays.
pub proof fn blank_mask_keeps_the_name(plan: RenamePlan, name: Seq<char>, index: int)
    requires
        plan.pattern.len() == 0,
        plan.case == RenameCase::Unchanged,
        forall|i: int| 0 <= i < plan.mask.len() ==> text::is_white(#[trigger] plan.mask[i]),
    ensures
        plan.new_name(name, index) == name,
{
    let cut = text::trimmed_is_the_core(plan.mask);
    if cut.0 < cut.1 {
        assert(text::is_white(plan.mask[cut.0]));
    }
}

/// The mask of stem, point and ending gives every name with an ending back.
pub proof fn stem_and_ending_make_the_name(plan: RenamePlan, name: Seq<char>, index: int)
    requires
        plan.pattern.len() == 0,
        plan.case == RenameCase::Unchanged,
        plan.mask == "[N].[E]"@,
        entry::extension(name) is Some,
        !name.contains('['),
    ensures
        plan.new_name(name, index) == name,
{
    reveal_strlit("[N].[E]");
    let e = Seq::<char>::empty();
    let (tn, te) = (seq!['[', 'N', ']'], seq!['[', 'E', ']']);
    let dot = seq!['.'];
    let rest = dot + te + e;
    assert(plan.mask =~= e + tn + rest);
    assert(!text::is_white(plan.mask[0]));
    mask_makes_the_name(plan, name, index);
    entry::stem_and_extension(name);
    let stem = entry::stem(name);
    let ext = entry::extension(name)->0;
    let nr = number::padded_text(plan.counter_start + index * plan.counter_step, plan.width());
    assert(!stem.contains('[')) by {
        if stem.contains('[') {
            let k = choose|k: int| 0 <= k < stem.len() && stem[k] == '[';
            assert(name[k] == '[');
        }
    }
    assert(!ext.contains('[')) by {
        if ext.contains('[') {
            let k = choose|k: int| 0 <= k < ext.len() && ext[k] == '[';
            assert(name[stem.len() + 1 + k] == '[');
        }
    }
    lemma_number_no_bracket(plan.counter_start + index * plan.counter_step, plan.width());
    placeholders_are_filled_in(e, rest, stem, ext, nr);
    assert(!dot.contains('['));
    placeholders_are_filled_in(dot, e, stem, ext, nr);
    assert(e + stem + (dot + ext + e) =~= name);
}

proof fn lemma_number_no_bracket(n: int, width: int)
    ensures
        !number::padded_text(n, width).contains('['),
{
    let digits = number::nat_text(if n < 0 {
        (-n) as nat
    } else {
        n as nat
    });
    number::nat_text_reads_back(if n < 0 {
        (-n) as nat
    } else {
        n as nat
    });
    let s = number::padded_text(n, width);
    assert forall|i: int| 0 <= i < s.len() implies s[i] != '[' by {
        if i >= s.len() - digits.len() {
            assert(s[i] == digits[i - (s.len() - digits.len())]);
            assert(number::is_digit(digits[i - (s.len() - digits.len())]));
        }
    }
}

/// The numbers of a plan begin at its start and grow by its step from file to file; they are
/// padded to the width asked for, kept between one and eight.
pub proof fn numbers_grow_by_the_step(plan: RenamePlan, index: int)
    ensures
        plan.counter(0) == plan.counter_start,
        plan.counter(index + 1) - plan.counter(index) == plan.counter_step,
        1 <= plan.width() <= 8,
        1 <= plan.counter_width <= 8 ==> plan.width() == plan.counter_width,
        plan.counter_width < 1 ==> plan.width() == 1,
        plan.counter_width > 8 ==> plan.width() == 8,
{
    assert((index + 1) * plan.counter_step == index * plan.counter_step + plan.counter_step)
        by (nonlinear_arith);
    assert(0 * plan.counter_step == 0) by (nonlinear_arith);
}

/// The case is changed last, over the whole name: a plan with a change of case gives what the
/// same plan without it gives, in that case.
pub proof fn case_is_changed_last(plan: RenamePlan, plain: RenamePlan, name: Seq<char>, index: int)
    requires
        plain == (RenamePlan { case: RenameCase::Unchanged, ..plan }),
    ensures
        plan.case == RenameCase::Unchanged ==> plan.new_name(name, index) == plain.new_name(
            name,
            index,
        ),
        plan.case == RenameCase::Upper ==> plan.new_name(name, index) == text::uppercase(
            plain.new_name(name, index),
        ),
        plan.case == RenameCase::Lower ==> plan.new_name(name, index) == text::lowercase(
            plain.new_name(name, index),
        ),
        plan.case == RenameCase::Capitalize ==> plan.new_name(name, index) == capitalized(
            plain.new_name(name, index),
            true,
        ),
{
}

/// The mask comes first: what it makes of the name is what the pattern is looked for in.
pub proof fn mask_comes_first(plan: RenamePlan, bare: RenamePlan, name: Seq<char>, index: int)
    requires
        bare == (RenamePlan { pattern: seq![], case: RenameCase::Unchanged, ..plan }),
    ensures
        plan.new_name(name, index) == (RenamePlan { mask: seq![], ..plan }).new_name(
            bare.new_name(name, index),
            index,
        ),
{
    assert(text::trimmed(Seq::<char>::empty()) =~= Seq::<char>::empty());
}

/// A regular expression replaces in the name that the mask made, by the rules of expressions;
/// only one that cannot be read, and is not empty, stops the renaming.
pub proof fn expressions_replace(plan: RenamePlan, name: Seq<char>, index: int)
    requires
        plan.use_regex,
        plan.case == RenameCase::Unchanged,
        plan.mask.len() == 0,
    ensures
        plan.pattern.len() > 0 ==> plan.new_name(name, index) == regex_replaced(
            plan.pattern,
            name,
            plan.replacement,
        ),
        plan.problem() is Some <==> plan.pattern.len() > 0 && regex_error(plan.pattern) is Some,
{
    assert(text::trimmed(plan.mask) =~= plan.mask);
}

/// A plain text to be replaced is never wrong.
pub proof fn plain_plans_have_no_problem(plan: RenamePlan)
    requires
        !plan.use_regex,
    ensures
        plan.problem() is None,
{
}

/// Each file gets its own line in the preview, with its own number, independent of the others.
pub proof fn preview_line_by_line(plan: RenamePlan, names: Seq<Seq<char>>, i: int)
    requires
        0 <= i < names.len(),
    ensures
        plan.preview(names).len() == names.len(),
        plan.preview(names)[i] == (names[i], plan.new_name(names[i], i)),
        forall|k: int|
            i < k <= names.len() ==> #[trigger] plan.preview(names.take(k))[i] == plan.preview(
                names,
            )[i],
{
}

/// In words of plain letters, the first letter of each word is large and the others are small.
pub proof fn words_begin_large(s: Seq<char>, i: int)
    requires
        0 <= i < s.len(),
    ensures
        i == 0 || s[i - 1] == ' ' || s[i - 1] == '_' || s[i - 1] == '-' || s[i - 1] == '.' ==> !(
        'a' <= ascii_capitalized(s)[i] <= 'z'),
        !(i == 0 || s[i - 1] == ' ' || s[i - 1] == '_' || s[i - 1] == '-' || s[i - 1] == '.') ==> !(
        'A' <= ascii_capitalized(s)[i] <= 'Z'),
        !('a' <= s[i] <= 'z') && !('A' <= s[i] <= 'Z') ==> ascii_capitalized(s)[i] == s[i],
        'a' <= s[i] <= 'z' ==> ascii_capitalized(s)[i] == s[i] || ascii_capitalized(s)[i] as int
            == s[i] as int - 32,
        'A' <= s[i] <= 'Z' ==> ascii_capitalized(s)[i] == s[i] || ascii_capitalized(s)[i] as int
            == s[i] as int + 32,
{
}

/// A sign that ends a word begins the next one: behind it, capitalising starts over.
pub proof fn words_are_capitalized_apart(a: Seq<char>, c: char, b: Seq<char>, start: bool)
    requires
        starts_word(c),
        !text::char_alphabetic(c),
    ensures
        capitalized(a + seq![c] + b, start) == capitalized(a, start) + text::char_lower(c)
            + capitalized(b, true),
    decreases a.len(),
{
    let s = a + seq![c] + b;
    if a.len() == 0 {
        assert(s.drop_first() =~= b);
        assert(s[0] == c);
        assert(capitalized(s, start) =~= capitalized(a, start) + text::char_lower(c)
            + capitalized(b, true));
    } else {
        let rest = a.drop_first();
        assert(s.drop_first() =~= rest + seq![c] + b);
        let up = start && text::char_alphabetic(a[0]);
        let next = !up && starts_word(a[0]);
        words_are_capitalized_apart(rest, c, b, next);
        assert(s[0] == a[0]);
        assert(capitalized(s, start) =~= capitalized(a, start) + text::char_lower(c)
            + capitalized(b, true));
    }
}

/// Within a word, only its first letter is written large.
pub proof fn word_is_capitalized(c: char, rest: Seq<char>)
    requires
        text::char_alphabetic(c),
        forall|i: int| 0 <= i < rest.len() ==> !starts_word(#[trigger] rest[i]),
    ensures
        capitalized(seq![c] + rest, true) == text::char_upper(c) + capitalized(rest, false),
        rest.len() > 0 ==> capitalized(rest, false) == text::char_lower(rest[0]) + capitalized(
            rest.drop_first(),
            false,
        ),
{
    assert((seq![c] + rest).drop_first() =~= rest);
}

/// The files to be renamed are all those whose name changes, in their order.
pub proof fn all_changes_are_made(a: Seq<(Seq<char>, Seq<char>)>, line: (Seq<char>, Seq<char>), b: Seq<(Seq<char>, Seq<char>)>)
    ensures
        changes(a + b) == changes(a) + changes(b),
        line.0 != line.1 ==> changes(seq![line]) == seq![line],
        line.0 == line.1 ==> changes(seq![line]) == Seq::<(Seq<char>, Seq<char>)>::empty(),
    decreases b.len(),
{
    if b.len() == 0 {
        assert(a + b =~= a);
        assert(changes(a) + changes(b) =~= changes(a));
    } else {
        assert((a + b).drop_last() =~= a + b.drop_last());
        all_changes_are_made(a, line, b.drop_last());
        assert(changes(a + b) =~= changes(a) + changes(b));
    }
    assert(seq![line].drop_last() =~= Seq::<(Seq<char>, Seq<char>)>::empty());
    assert(changes(Seq::<(Seq<char>, Seq<char>)>::empty()) =~= Seq::<
        (Seq<char>, Seq<char>),
    >::empty());
    if line.0 != line.1 {
        assert(changes(seq![line]) =~= seq![line]);
    }
}

/// Where the numbers of files can be held, each of them can; without a mask there are none to
/// hold.
pub proof fn numbers_that_fit(plan: RenamePlan, n: int, i: int)
    requires
        i64::MIN <= plan.counter_start <= i64::MAX,
        plan.counts(n),
        plan.has_mask(),
        0 <= i < n,
    ensures
        i64::MIN <= plan.counter(i) <= i64::MAX,
{
    lemma_counter_fits(plan, n, i);
}

/// Plans without a mask number nothing, and nothing is numbered where there are no files.
pub proof fn nothing_to_number(plan: RenamePlan, n: int)
    requires
        !plan.has_mask() || n <= 0,
    ensures
        plan.counts(n),
{
}

} // verus!
