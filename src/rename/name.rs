//! The search key of a raw name, and minimal descriptions of titles.
use vstd::prelude::*;

use crate::config::Settings;
use crate::rename::{descriptions_view, MediaDescription, MediaDescriptionView, RenameError};
use crate::text::{
    decimal, is_trimmed, lemma_decimal, lemma_decimal_four, lemma_last_index_at, lemma_pow10_small,
    lemma_title_case_keeps, lemma_trim, no_double_space, only_word_or_space, all_digits, all_digits_in, all_name_chars, all_name_chars_in, chars_of, copy_range,
    digits_value, find_last, int_chars, int_text, is_digit, is_digit_char, is_word_char,
    is_word_character, is_ws, is_ws_char, last_index_of, string_of, title_case,
    title_case_chars, trim, trim_end, trim_range, trim_start, skip_ws,
};

verus! {

#[verifier::external_type_specification]
#[verifier::external_body]
pub struct ExRegex(regex::Regex);

/// The text before the leftmost-first match of `pattern` in `text`, if it matches.
pub uninterp spec fn text_before_match(pattern: Seq<char>, text: Seq<char>) -> Option<Seq<char>>;

/// Whether `regex::Regex::new` accepts `pattern`.
pub uninterp spec fn is_valid_pattern(pattern: Seq<char>) -> bool;

/// Every pattern is one `regex::Regex::new` accepts.
pub open spec fn all_valid_patterns(patterns: Seq<String>) -> bool {
    forall|j: int| 0 <= j < patterns.len() ==> is_valid_pattern(#[trigger] patterns[j]@)
}

/// A trim pattern of the settings, compiled once.
pub struct TrimRule {
    source: String,
    regex: regex::Regex,
}

impl TrimRule {
    pub closed spec fn pattern(&self) -> Seq<char> {
        self.source@
    }
}

/// Relies on `regex::Regex::new`: compiles `source`; whether it succeeds
/// depends on the pattern text alone.
#[verifier::external_body]
fn compile_rule(source: String) -> (r: Option<TrimRule>)
    ensures
        r is Some <==> is_valid_pattern(source@),
        r matches Some(t) ==> t.pattern() == source@,
{
    match regex::Regex::new(&source) {
        Ok(regex) => Some(TrimRule { source, regex }),
        Err(_) => None,
    }
}

/// Relies on `regex::Regex::find`: the haystack before the start of the leftmost-first match.
#[verifier::external_body]
fn cut_at_match(rule: &TrimRule, text: &str) -> (r: Option<String>)
    ensures
        match r {
            Some(p) => text_before_match(rule.pattern(), text@) == Some(p@),
            None => text_before_match(rule.pattern(), text@) == None::<Seq<char>>,
        },
{
    match rule.regex.find(text) {
        Some(m) => Some(text[..m.start()].to_string()),
        None => None,
    }
}

pub struct BaseInfo {
    name: String,
    year: Option<i32>,
}

pub struct BaseInfoView {
    pub name: Seq<char>,
    pub year: Option<i32>,
}

impl View for BaseInfo {
    type V = BaseInfoView;

    closed spec fn view(&self) -> BaseInfoView {
        BaseInfoView { name: self.name@, year: self.year }
    }
}

/// `"<name> (<year>)"`, or the name alone when there is no year.
pub open spec fn formatted_text(b: BaseInfoView) -> Seq<char> {
    match b.year {
        Some(y) => b.name + seq![' ', '('] + int_text(y as int) + seq![')'],
        None => b.name,
    }
}

impl BaseInfo {
    pub fn new(name: String, year: Option<i32>) -> (r: Self)
        ensures
            r@ == (BaseInfoView { name: name@, year }),
    {
        BaseInfo { name, year }
    }

    pub fn formatted(&self) -> (r: String)
        ensures
            r@ == formatted_text(self@),
    {
        match self.year {
            Some(y) => {
                let mut v = chars_of(self.name.as_str());
                v.push(' ');
                v.push('(');
                let digits = int_chars(y);
                let ghost start = v@;
                let mut i: usize = 0;
                while i < digits.len()
                    invariant
                        i <= digits@.len(),
                        v@ == start + digits@.subrange(0, i as int),
                    decreases digits@.len() - i,
                {
                    v.push(digits[i]);
                    i = i + 1;
                    assert(v@ =~= start + digits@.subrange(0, i as int));
                }
                v.push(')');
                assert(digits@.subrange(0, i as int) =~= digits@);
                assert(v@ =~= formatted_text(self@));
                string_of(&v)
            },
            None => self.name.clone(),
        }
    }

    pub fn name(&self) -> (r: &str)
        ensures
            r@ == self@.name,
    {
        self.name.as_str()
    }

    pub fn year(&self) -> (r: Option<i32>)
        ensures
            r == self@.year,
    {
        self.year
    }
}

/// `YYYY` or `YYYY-MM-DD`.
pub open spec fn is_release_date(s: Seq<char>) -> bool {
    (s.len() == 4 && all_digits(s)) || (s.len() == 10 && all_digits(s.subrange(0, 4)) && s[4]
        == '-' && all_digits(s.subrange(5, 7)) && s[7] == '-' && all_digits(s.subrange(8, 10)))
}

/// `s` matches the title pattern `^\s*(<name>[A-Za-z0-9\s-]+)\s\((<date>)\)$`:
/// name characters and whitespace, one whitespace, then the release date in
/// parentheses at the very end.
pub open spec fn has_title_date(s: Seq<char>) -> bool {
    let k = last_index_of(s, '(');
    &&& 2 <= k
    &&& k + 2 <= s.len()
    &&& s.last() == ')'
    &&& is_ws(s[k - 1])
    &&& all_name_chars(s.subrange(0, k - 1))
    &&& is_release_date(s.subrange(k + 1, s.len() - 1))
}

/// `s` is already a normalized `<name> (<release date>)`: the title pattern,
/// with a name that is not whitespace only.
pub open spec fn has_dated_suffix(s: Seq<char>) -> bool {
    &&& has_title_date(s)
    &&& trim_start(s.subrange(0, last_index_of(s, '(') - 1)).len() > 0
}

/// `&` written out as `and`.
pub open spec fn replace_amp(s: Seq<char>) -> Seq<char>
    decreases s.len(),
{
    if s.len() == 0 {
        s
    } else if s.last() == '&' {
        replace_amp(s.drop_last()) + seq!['a', 'n', 'd']
    } else {
        replace_amp(s.drop_last()).push(s.last())
    }
}

/// Every character but letters, digits and dashes turned into a space.
pub open spec fn blank_specials(s: Seq<char>) -> Seq<char> {
    Seq::new(s.len(), |i: int| if is_word_char(s[i]) { s[i] } else { ' ' })
}

/// Each run of spaces cut to one space.
pub open spec fn squeeze_spaces(s: Seq<char>) -> Seq<char>
    decreases s.len(),
{
    if s.len() == 0 {
        s
    } else {
        let p = squeeze_spaces(s.drop_last());
        if s.last() == ' ' && p.len() > 0 && p.last() == ' ' {
            p
        } else {
            p.push(s.last())
        }
    }
}

/// The cleaned, title-cased form of a raw name.
pub open spec fn normalized(s: Seq<char>) -> Seq<char> {
    title_case(trim(squeeze_spaces(blank_specials(replace_amp(s)))))
}

/// A decimal text without its leading sign, if it has one.
pub open spec fn unsigned_part(s: Seq<char>) -> Seq<char> {
    if s.len() > 0 && (s[0] == '+' || s[0] == '-') {
        s.subrange(1, s.len() as int)
    } else {
        s
    }
}

/// What `str::parse::<i32>` gives: an optional sign, then at least one digit,
/// and a value that fits.
pub open spec fn parsed_year(s: Seq<char>) -> Option<i32> {
    let body = unsigned_part(s);
    let v: int = if s.len() > 0 && s[0] == '-' {
        -(digits_value(body) as int)
    } else {
        digits_value(body) as int
    };
    if body.len() > 0 && all_digits(body) && i32::MIN <= v <= i32::MAX {
        Some(v as i32)
    } else {
        None
    }
}

/// A trailing space and four digits become the year.
pub open spec fn split_year(t: Seq<char>) -> BaseInfoView {
    if t.len() >= 5 && is_ws(t[t.len() - 5]) && all_digits(t.subrange(t.len() - 4, t.len() as int)) {
        BaseInfoView {
            name: t.subrange(0, t.len() - 5),
            year: parsed_year(t.subrange(t.len() - 4, t.len() as int)),
        }
    } else {
        BaseInfoView { name: t, year: None }
    }
}

/// The search key of a name whose trim patterns have been applied.
pub open spec fn base_info_of_trimmed(s: Seq<char>) -> BaseInfoView {
    split_year(normalized(s))
}

/// The trim patterns applied in order: each cuts the text before its first match.
pub open spec fn cut_by_rules(patterns: Seq<Seq<char>>, s: Seq<char>) -> Seq<char>
    decreases patterns.len(),
{
    if patterns.len() == 0 {
        s
    } else {
        let cur = cut_by_rules(patterns.drop_last(), s);
        match text_before_match(patterns.last(), cur) {
            Some(p) => p,
            None => cur,
        }
    }
}

/// The search key of a raw name.
pub open spec fn base_info_of(patterns: Seq<Seq<char>>, raw: Seq<char>) -> BaseInfoView {
    if has_dated_suffix(raw) {
        let k = last_index_of(raw, '(');
        BaseInfoView {
            name: trim(raw.subrange(0, k - 1)),
            year: parsed_year(raw.subrange(k + 1, k + 5)),
        }
    } else {
        base_info_of_trimmed(cut_by_rules(patterns, raw))
    }
}

/// The name the title pattern captures from the text before the final
/// whitespace: leading whitespace is left to `\s*`, but the name keeps at
/// least one character.
pub open spec fn title_capture(r: Seq<char>) -> Seq<char> {
    if trim_start(r).len() > 0 {
        trim_start(r)
    } else {
        r.subrange(r.len() - 1, r.len() as int)
    }
}

/// The minimal description of one title: split into name and date when it
/// matches the title pattern, all other fields empty.
pub open spec fn title_description(t: Seq<char>) -> MediaDescriptionView {
    let k = last_index_of(t, '(');
    MediaDescriptionView {
        poster_url: Seq::empty(),
        title: if has_title_date(t) {
            title_capture(t.subrange(0, k - 1))
        } else {
            t
        },
        date: if has_title_date(t) {
            t.subrange(k + 1, t.len() - 1)
        } else {
            Seq::empty()
        },
        description: Seq::empty(),
        cast: Seq::empty(),
    }
}

pub proof fn lemma_digits_value_bound(s: Seq<char>)
    requires
        all_digits(s),
    ensures
        digits_value(s) < crate::text::pow10(s.len()),
    decreases s.len(),
{
    if s.len() > 0 {
        assert(all_digits(s.drop_last()));
        lemma_digits_value_bound(s.drop_last());
        let d = ((s.last() as u32) - ('0' as u32)) as nat;
        assert(is_digit(s[s.len() - 1]));
        let p = crate::text::pow10((s.len() - 1) as nat);
        assert(digits_value(s.drop_last()) * 10 + d < 10 * p) by (nonlinear_arith)
            requires
                digits_value(s.drop_last()) < p,
                d < 10,
        ;
    }
}

pub(crate) fn replace_amp_chars(v: &Vec<char>) -> (r: Vec<char>)
    ensures
        r@ == replace_amp(v@),
{
    let mut r: Vec<char> = Vec::new();
    let mut i: usize = 0;
    while i < v.len()
        invariant
            i <= v@.len(),
            r@ == replace_amp(v@.subrange(0, i as int)),
        decreases v@.len() - i,
    {
        let ghost before = r@;
        assert(v@.subrange(0, i + 1).drop_last() =~= v@.subrange(0, i as int));
        if v[i] == '&' {
            r.push('a');
            r.push('n');
            r.push('d');
            assert(r@ =~= before + seq!['a', 'n', 'd']);
        } else {
            r.push(v[i]);
        }
        i = i + 1;
    }
    assert(v@.subrange(0, i as int) =~= v@);
    r
}

fn blank_specials_chars(v: &Vec<char>) -> (r: Vec<char>)
    ensures
        r@ == blank_specials(v@),
{
    let mut r: Vec<char> = Vec::new();
    let mut i: usize = 0;
    while i < v.len()
        invariant
            i <= v@.len(),
            r@.len() == i,
            forall|j: int| 0 <= j < i ==> #[trigger] r@[j] == blank_specials(v@)[j],
        decreases v@.len() - i,
    {
        if is_word_character(v[i]) {
            r.push(v[i]);
        } else {
            r.push(' ');
        }
        i = i + 1;
    }
    assert(r@ =~= blank_specials(v@));
    r
}

fn squeeze_spaces_chars(v: &Vec<char>) -> (r: Vec<char>)
    ensures
        r@ == squeeze_spaces(v@),
{
    let mut r: Vec<char> = Vec::new();
    let mut i: usize = 0;
    while i < v.len()
        invariant
            i <= v@.len(),
            r@ == squeeze_spaces(v@.subrange(0, i as int)),
        decreases v@.len() - i,
    {
        assert(v@.subrange(0, i + 1).drop_last() =~= v@.subrange(0, i as int));
        let c = v[i];
        let n = r.len();
        if !(c == ' ' && n > 0 && r[n - 1] == ' ') {
            r.push(c);
        }
        i = i + 1;
    }
    assert(v@.subrange(0, i as int) =~= v@);
    r
}

/// The value of `text` when it is plain decimal digits that fit in an `i32`.
pub fn parse_year(text: &str) -> (r: Option<i32>)
    ensures
        r == parsed_year(text@),
{
    let v = chars_of(text);
    let n = v.len();
    let neg = n > 0 && v[0] == '-';
    let start: usize = if n > 0 && (v[0] == '+' || v[0] == '-') {
        1
    } else {
        0
    };
    assert(unsigned_part(v@) == v@.subrange(start as int, n as int));
    if start == n {
        return None;
    }
    let mut acc: u64 = 0;
    let mut over = false;
    let mut i: usize = start;
    while i < n
        invariant
            start <= i <= n,
            n == v@.len(),
            v@ == text@,
            unsigned_part(v@) == v@.subrange(start as int, n as int),
            all_digits(v@.subrange(start as int, i as int)),
            over ==> digits_value(v@.subrange(start as int, i as int)) > 2147483648,
            !over ==> acc == digits_value(v@.subrange(start as int, i as int)) && acc
                <= 2147483648,
        decreases n - i,
    {
        let c = v[i];
        if !is_digit_char(c) {
            assert(!all_digits(v@.subrange(start as int, n as int))) by {
                assert(v@.subrange(start as int, n as int)[i - start] == c);
            }
            return None;
        }
        assert(v@.subrange(start as int, i + 1).drop_last() =~= v@.subrange(
            start as int,
            i as int,
        ));
        let d: u64 = (c as u64) - 48;
        let ghost prev = digits_value(v@.subrange(start as int, i as int));
        assert(digits_value(v@.subrange(start as int, i + 1)) == prev * 10 + d);
        assert(prev * 10 + d >= prev) by (nonlinear_arith)
            requires
                d >= 0,
        ;
        if !over {
            acc = acc * 10 + d;
            if acc > 2147483648 {
                over = true;
            }
        }
        i = i + 1;
        assert(all_digits(v@.subrange(start as int, i as int))) by {
            assert(forall|j: int|
                0 <= j < i - start ==> #[trigger] v@.subrange(start as int, i as int)[j] == v@[start
                    + j]);
            assert(forall|j: int|
                0 <= j < i - 1 - start ==> #[trigger] v@.subrange(start as int, i - 1)[j]
                    == v@[start + j]);
        }
    }
    if over {
        None
    } else if neg {
        Some((0 - (acc as i64)) as i32)
    } else if acc > 2147483647 {
        None
    } else {
        Some(acc as i32)
    }
}

/// Whether `v` from `lo` up to `hi` is a release date.
pub(crate) fn is_release_date_in(v: &Vec<char>, lo: usize, hi: usize) -> (r: bool)
    requires
        lo <= hi <= v@.len(),
    ensures
        r == is_release_date(v@.subrange(lo as int, hi as int)),
{
    let ghost s = v@.subrange(lo as int, hi as int);
    if hi - lo == 4 {
        all_digits_in(v, lo, hi)
    } else if hi - lo == 10 {
        assert(s.subrange(0, 4) =~= v@.subrange(lo as int, lo + 4));
        assert(s.subrange(5, 7) =~= v@.subrange(lo + 5, lo + 7));
        assert(s.subrange(8, 10) =~= v@.subrange(lo + 8, lo + 10));
        all_digits_in(v, lo, lo + 4) && v[lo + 4] == '-' && all_digits_in(v, lo + 5, lo + 7)
            && v[lo + 7] == '-' && all_digits_in(v, lo + 8, hi)
    } else {
        false
    }
}

/// The index of the opening parenthesis when `v` matches the title pattern.
fn title_date(v: &Vec<char>) -> (r: Option<usize>)
    ensures
        match r {
            Some(k) => has_title_date(v@) && k == last_index_of(v@, '('),
            None => !has_title_date(v@),
        },
{
    match find_last(v, '(') {
        None => None,
        Some(k) => {
            let n = v.len();
            if k >= 2 && n - k >= 2 && v[n - 1] == ')' && is_ws_char(v[k - 1])
                && all_name_chars_in(v, 0, k - 1) && is_release_date_in(v, k + 1, n - 1) {
                Some(k)
            } else {
                None
            }
        },
    }
}

/// The index of the opening parenthesis when `v` is an already normalized
/// `<name> (<release date>)`.
fn dated_suffix(v: &Vec<char>) -> (r: Option<usize>)
    ensures
        match r {
            Some(k) => has_dated_suffix(v@) && k == last_index_of(v@, '('),
            None => !has_dated_suffix(v@),
        },
{
    match title_date(v) {
        None => None,
        Some(k) => {
            if skip_ws(v, 0, k - 1) < k - 1 {
                Some(k)
            } else {
                None
            }
        },
    }
}

/// The search key of a name whose trim patterns have already been applied:
/// cleaned, title-cased, and split at a trailing four-digit year.
pub fn base_info_from_trimmed(text: &str) -> (r: BaseInfo)
    ensures
        r@ == base_info_of_trimmed(text@),
{
    let v = chars_of(text);
    let a = replace_amp_chars(&v);
    let b = blank_specials_chars(&a);
    let c = squeeze_spaces_chars(&b);
    let d = trim_range(&c, 0, c.len());
    assert(c@.subrange(0, c@.len() as int) =~= c@);
    let t = title_case_chars(&d);
    let n = t.len();
    if n >= 5 && is_ws_char(t[n - 5]) && all_digits_in(&t, n - 4, n) {
        let name = copy_range(&t, 0, n - 5);
        let digits = copy_range(&t, n - 4, n);
        let year = parse_year(string_of(&digits).as_str());
        BaseInfo { name: string_of(&name), year }
    } else {
        BaseInfo { name: string_of(&t), year: None }
    }
}

pub struct NameGenerator {
    trim_rules: Vec<TrimRule>,
}

impl NameGenerator {
    /// The trim patterns, in the order they are applied.
    pub closed spec fn trim_patterns(&self) -> Seq<Seq<char>> {
        self.trim_rules@.map_values(|t: TrimRule| t.pattern())
    }

    /// Compiles the trim patterns of the settings once; fails when one of them
    /// is not a valid pattern.
    pub fn new(settings: &Settings) -> (r: Result<Self, RenameError>)
        ensures
            r is Ok <==> all_valid_patterns(settings.rename.trim_regex@),
            r matches Ok(g) ==> g.trim_patterns() == crate::rename::strings_view(
                settings.rename.trim_regex@,
            ),
            r matches Err(e) ==> e == RenameError::InvalidTrimPattern,
    {
        let sources = &settings.rename.trim_regex;
        let mut trim_rules: Vec<TrimRule> = Vec::new();
        let mut i: usize = 0;
        while i < sources.len()
            invariant
                i <= sources@.len(),
                trim_rules@.len() == i,
                sources == &settings.rename.trim_regex,
                forall|j: int|
                    0 <= j < i ==> #[trigger] trim_rules@[j].pattern() == sources@[j]@,
                forall|j: int| 0 <= j < i ==> is_valid_pattern(#[trigger] sources@[j]@),
            decreases sources@.len() - i,
        {
            match compile_rule(sources[i].clone()) {
                Some(rule) => trim_rules.push(rule),
                None => {
                    assert(!is_valid_pattern(sources@[i as int]@));
                    return Err(RenameError::InvalidTrimPattern);
                },
            }
            i = i + 1;
        }
        let g = NameGenerator { trim_rules };
        assert(g.trim_patterns() =~= crate::rename::strings_view(settings.rename.trim_regex@));
        Ok(g)
    }

    /// The search key of a raw name.
    pub fn generate_base_info(&self, name: String) -> (r: BaseInfo)
        ensures
            r@ == base_info_of(self.trim_patterns(), name@),
    {
        let v = chars_of(name.as_str());
        match dated_suffix(&v) {
            Some(k) => {
                let n = v.len();
                assert(v@.subrange(k + 1, n - 1).len() >= 4);
                let trimmed = trim_range(&v, 0, k - 1);
                let digits = copy_range(&v, k + 1, k + 5);
                let year = parse_year(string_of(&digits).as_str());
                return BaseInfo { name: string_of(&trimmed), year };
            },
            None => {},
        }
        let mut cur = name;
        let mut i: usize = 0;
        while i < self.trim_rules.len()
            invariant
                i <= self.trim_rules@.len(),
                !has_dated_suffix(name@),
                cur@ == cut_by_rules(self.trim_patterns().subrange(0, i as int), name@),
            decreases self.trim_rules@.len() - i,
        {
            let ghost ps = self.trim_patterns().subrange(0, i + 1);
            assert(ps.drop_last() =~= self.trim_patterns().subrange(0, i as int));
            match cut_at_match(&self.trim_rules[i], cur.as_str()) {
                Some(p) => cur = p,
                None => {},
            }
            i = i + 1;
        }
        assert(self.trim_patterns().subrange(0, i as int) =~= self.trim_patterns());
        base_info_from_trimmed(cur.as_str())
    }

    /// One minimal description per title, in order.
    pub fn generate_media_descriptions(&self, titles: Vec<String>) -> (r: Vec<MediaDescription>)
        ensures
            descriptions_view(r@) == titles@.map_values(|t: String| title_description(t@)),
    {
        let mut r: Vec<MediaDescription> = Vec::new();
        let mut i: usize = 0;
        while i < titles.len()
            invariant
                i <= titles@.len(),
                r@.len() == i,
                forall|j: int|
                    0 <= j < i ==> #[trigger] r@[j]@ == title_description(titles@[j]@),
            decreases titles@.len() - i,
        {
            r.push(describe_title(&titles[i]));
            i = i + 1;
        }
        assert(descriptions_view(r@) =~= titles@.map_values(|t: String| title_description(t@)));
        r
    }
}

/// The minimal description of one title.
fn describe_title(t: &String) -> (r: MediaDescription)
    ensures
        r@ == title_description(t@),
{
    let v = chars_of(t.as_str());
    let (title, date) = match title_date(&v) {
        Some(k) => {
            let n = v.len();
            let a = skip_ws(&v, 0, k - 1);
            let name = if a < k - 1 {
                copy_range(&v, a, k - 1)
            } else {
                assert(v@.subrange(0, k - 1).subrange(k - 2, k - 1) =~= v@.subrange(k - 2, k - 1));
                copy_range(&v, k - 2, k - 1)
            };
            let date_end: usize = n - 1;
            let date_start: usize = k + 1;
            (string_of(&name), string_of(&copy_range(&v, date_start, date_end)))
        },
        None => (t.clone(), String::new()),
    };
    let cast: Vec<String> = Vec::new();
    assert(crate::rename::strings_view(cast@) =~= Seq::<Seq<char>>::empty());
    MediaDescription { poster_url: String::new(), title, date, description: String::new(), cast }
}

proof fn lemma_squeeze(s: Seq<char>)
    ensures
        no_double_space(squeeze_spaces(s)),
        only_word_or_space(s) ==> only_word_or_space(squeeze_spaces(s)),
    decreases s.len(),
{
    if s.len() > 0 {
        let d = s.drop_last();
        lemma_squeeze(d);
        let p = squeeze_spaces(d);
        if only_word_or_space(s) {
            assert(only_word_or_space(d)) by {
                assert forall|i: int| 0 <= i < d.len() implies is_word_char(#[trigger] d[i])
                    || d[i] == ' ' by {
                    assert(d[i] == s[i]);
                }
            }
        }
        if !(s.last() == ' ' && p.len() > 0 && p.last() == ' ') {
            let q = p.push(s.last());
            assert forall|i: int| 0 <= i < q.len() - 1 implies !(#[trigger] q[i] == ' ' && q[i
                + 1] == ' ') by {
                if i < p.len() - 1 {
                    assert(q[i] == p[i] && q[i + 1] == p[i + 1]);
                }
            }
            if only_word_or_space(s) {
                assert forall|i: int| 0 <= i < q.len() implies is_word_char(#[trigger] q[i])
                    || q[i] == ' ' by {
                    if i < p.len() {
                        assert(q[i] == p[i]);
                    }
                }
            }
        }
    }
}

/// A cleaned name has no whitespace at either end, no two spaces in a row,
/// and nothing but letters, digits, dashes and spaces.
proof fn lemma_normalized(s: Seq<char>)
    ensures
        is_trimmed(normalized(s)),
        no_double_space(normalized(s)),
        only_word_or_space(normalized(s)),
{
    let b = blank_specials(replace_amp(s));
    assert(only_word_or_space(b));
    lemma_squeeze(b);
    let q = squeeze_spaces(b);
    lemma_trim(q);
    lemma_title_case_keeps(trim(q));
}

/// The split at a trailing year keeps a well-spaced name well spaced; a year
/// found there has four digits and leaves a name.
proof fn lemma_split_year(t: Seq<char>)
    requires
        is_trimmed(t),
        no_double_space(t),
        only_word_or_space(t),
    ensures
        is_trimmed(split_year(t).name),
        no_double_space(split_year(t).name),
        only_word_or_space(split_year(t).name),
        split_year(t).year matches Some(y) ==> 0 <= y <= 9999 && split_year(t).name.len() > 0,
{
    if t.len() >= 5 && is_ws(t[t.len() - 5]) && all_digits(t.subrange(t.len() - 4, t.len() as int)) {
        let n = t.subrange(0, t.len() - 5);
        crate::text::lemma_stretch_keeps(t, 0, t.len() - 5);
        assert(t[t.len() - 5] == ' ');
        if n.len() > 0 {
            assert(n[0] == t[0]);
            assert(n.last() == t[t.len() - 6]);
            assert(!(t[t.len() - 6] == ' ' && t[t.len() - 5] == ' '));
        }
        let digits = t.subrange(t.len() - 4, t.len() as int);
        lemma_digits_value_bound(digits);
        lemma_pow10_small(4);
    }
}

/// The name of a search key never starts or ends with whitespace and never
/// holds two spaces in a row. A name already written `<name> (<date>)` is
/// taken as written, so there this holds when that name has no two spaces in a row.
pub proof fn lemma_name_well_spaced(patterns: Seq<Seq<char>>, raw: Seq<char>)
    requires
        has_dated_suffix(raw) ==> no_double_space(
            trim(raw.subrange(0, last_index_of(raw, '(') - 1)),
        ),
    ensures
        is_trimmed(base_info_of(patterns, raw).name),
        no_double_space(base_info_of(patterns, raw).name),
{
    if has_dated_suffix(raw) {
        lemma_trim(raw.subrange(0, last_index_of(raw, '(') - 1));
    } else {
        let s = cut_by_rules(patterns, raw);
        lemma_normalized(s);
        lemma_split_year(normalized(s));
    }
}

/// What holds of every search key with a year: a name of name characters,
/// no whitespace at its ends, and a year of at most four digits.
proof fn lemma_base_info_shape(patterns: Seq<Seq<char>>, raw: Seq<char>)
    ensures
        all_name_chars(base_info_of(patterns, raw).name),
        is_trimmed(base_info_of(patterns, raw).name),
        base_info_of(patterns, raw).year matches Some(y) ==> 0 <= y <= 9999,
{
    if has_dated_suffix(raw) {
        let k = last_index_of(raw, '(');
        lemma_trim(raw.subrange(0, k - 1));
        let date = raw.subrange(k + 1, raw.len() - 1);
        let digits = raw.subrange(k + 1, k + 5);
        assert(digits =~= date.subrange(0, 4));
        lemma_digits_value_bound(digits);
        lemma_pow10_small(4);
    } else {
        let s = cut_by_rules(patterns, raw);
        lemma_normalized(s);
        lemma_split_year(normalized(s));
        let n = base_info_of(patterns, raw).name;
        assert forall|i: int| 0 <= i < n.len() implies crate::text::is_name_char(#[trigger] n[i]) by {
            assert(is_word_char(n[i]) || n[i] == ' ');
        }
    }
}

/// Formatting a search key that has a name and a year of four digits, and
/// reading the text back, gives the same search key. (A year under 1000 is
/// formatted with fewer than four digits and is not read back as a year.)
pub proof fn lemma_formatted_round_trip(patterns: Seq<Seq<char>>, raw: Seq<char>)
    requires
        base_info_of(patterns, raw).name.len() > 0,
        base_info_of(patterns, raw).year matches Some(y) && y >= 1000,
    ensures
        base_info_of(patterns, formatted_text(base_info_of(patterns, raw))) == base_info_of(
            patterns,
            raw,
        ),
{
    let b = base_info_of(patterns, raw);
    lemma_base_info_shape(patterns, raw);
    let y = b.year->0;
    let n = b.name;
    let digits = decimal(y as nat);
    lemma_decimal(y as nat);
    lemma_decimal_four(y as nat);
    let f = formatted_text(b);
    assert(f =~= n + seq![' ', '('] + digits + seq![')']);
    let k: int = n.len() as int + 1;
    assert forall|i: int| k < i < f.len() implies #[trigger] f[i] != '(' by {
        if i < f.len() - 1 {
            assert(f[i] == digits[i - k - 1]);
        }
    }
    lemma_last_index_at(f, '(', k);
    assert(f.subrange(0, k - 1) =~= n);
    assert(f.subrange(k + 1, f.len() - 1) =~= digits);
    assert(f.subrange(k + 1, k + 5) =~= digits);
    assert(digits.subrange(0, 4) =~= digits);
    assert(has_dated_suffix(f));
    crate::text::lemma_trim_trimmed(n);
}

/// A letter or a digit.
pub open spec fn is_alphanumeric(c: char) -> bool {
    ('a' <= c && c <= 'z') || ('A' <= c && c <= 'Z') || crate::text::is_digit(c)
}

pub open spec fn has_word_char(s: Seq<char>) -> bool {
    exists|i: int| 0 <= i < s.len() && is_word_char(#[trigger] s[i])
}

proof fn lemma_replace_amp_word(s: Seq<char>)
    requires
        has_word_char(s),
    ensures
        has_word_char(replace_amp(s)),
    decreases s.len(),
{
    let d = s.drop_last();
    let r = replace_amp(s);
    if is_word_char(s.last()) {
        assert(r.last() == s.last());
        assert(is_word_char(r[r.len() - 1]));
    } else {
        let i = choose|i: int| 0 <= i < s.len() && is_word_char(#[trigger] s[i]);
        assert(d[i] == s[i]);
        lemma_replace_amp_word(d);
        let p = replace_amp(d);
        let j = choose|j: int| 0 <= j < p.len() && is_word_char(#[trigger] p[j]);
        assert(r[j] == p[j]);
    }
}

proof fn lemma_squeeze_word(s: Seq<char>)
    requires
        has_word_char(s),
    ensures
        has_word_char(squeeze_spaces(s)),
    decreases s.len(),
{
    let d = s.drop_last();
    let r = squeeze_spaces(s);
    if is_word_char(s.last()) {
        assert(r.last() == s.last());
        assert(is_word_char(r[r.len() - 1]));
    } else {
        let i = choose|i: int| 0 <= i < s.len() && is_word_char(#[trigger] s[i]);
        assert(d[i] == s[i]);
        lemma_squeeze_word(d);
        let p = squeeze_spaces(d);
        let j = choose|j: int| 0 <= j < p.len() && is_word_char(#[trigger] p[j]);
        assert(r[j] == p[j]);
    }
}

proof fn lemma_trim_start_keeps(s: Seq<char>, i: int)
    requires
        0 <= i < s.len(),
        !is_ws(s[i]),
    ensures
        trim_start(s).len() > 0,
    decreases s.len(),
{
    if is_ws(s[0]) {
        assert(s.drop_first()[i - 1] == s[i]);
        lemma_trim_start_keeps(s.drop_first(), i - 1);
    }
}

proof fn lemma_trim_end_keeps_first(s: Seq<char>)
    requires
        s.len() > 0,
        !is_ws(s[0]),
    ensures
        trim_end(s).len() > 0,
    decreases s.len(),
{
    if s.len() > 1 && is_ws(s.last()) {
        lemma_trim_end_keeps_first(s.drop_last());
    }
}

/// Text with a character that is not whitespace keeps something when trimmed.
proof fn lemma_trim_not_empty(s: Seq<char>, i: int)
    requires
        0 <= i < s.len(),
        !is_ws(s[i]),
    ensures
        trim(s).len() > 0,
{
    lemma_trim_start_keeps(s, i);
    crate::text::lemma_trim_start_suffix(s);
    lemma_trim_end_keeps_first(trim_start(s));
}

/// The name of a search key is not empty when the raw name holds a letter or a
/// digit that the trim patterns keep, or when it is already written
/// `<name> (<date>)`.
pub proof fn lemma_name_not_empty(patterns: Seq<Seq<char>>, raw: Seq<char>)
    requires
        has_dated_suffix(raw) || exists|i: int|
            0 <= i < cut_by_rules(patterns, raw).len() && is_alphanumeric(
                #[trigger] cut_by_rules(patterns, raw)[i],
            ),
    ensures
        base_info_of(patterns, raw).name.len() > 0,
{
    if has_dated_suffix(raw) {
        let r = raw.subrange(0, last_index_of(raw, '(') - 1);
        crate::text::lemma_trim_start_suffix(r);
        lemma_trim_end_keeps_first(trim_start(r));
    } else {
        let c = cut_by_rules(patterns, raw);
        let i = choose|i: int| 0 <= i < c.len() && is_alphanumeric(#[trigger] c[i]);
        assert(is_word_char(c[i]));
        lemma_replace_amp_word(c);
        let a = replace_amp(c);
        let j = choose|j: int| 0 <= j < a.len() && is_word_char(#[trigger] a[j]);
        let b = blank_specials(a);
        assert(is_word_char(b[j]));
        lemma_squeeze_word(b);
        let q = squeeze_spaces(b);
        let k = choose|k: int| 0 <= k < q.len() && is_word_char(#[trigger] q[k]);
        lemma_trim_not_empty(q, k);
        lemma_normalized(c);
        lemma_split_year(normalized(c));
    }
}

} // verus!
