//! Matching a search key against the entries already in the library.
use vstd::prelude::*;

use crate::config::Settings;
use crate::rename::name::{
    all_valid_patterns, is_release_date, is_release_date_in, title_description, BaseInfo, NameGenerator,
};
use crate::rename::{
    strings_view, MediaFileType, MediaRenameOrigin, RenameError,
    RenamedMediaOptions, RenamedMediaOptionsView,
};
use crate::text::{
    chars_of, copy_range, find_last, is_ws, is_ws_char,
    last_index_of, lemma_trim_end_step, string_of, trim_end,
};

verus! {

/// The Levenshtein distance: the fewest single-character insertions,
/// deletions and substitutions that turn `a` into `b`.
pub open spec fn levenshtein(a: Seq<char>, b: Seq<char>) -> nat
    decreases a.len() + b.len(),
{
    if a.len() == 0 {
        b.len()
    } else if b.len() == 0 {
        a.len()
    } else {
        let del = levenshtein(a.drop_last(), b) + 1;
        let ins = levenshtein(a, b.drop_last()) + 1;
        let sub = levenshtein(a.drop_last(), b.drop_last()) + if a.last() == b.last() {
            0nat
        } else {
            1nat
        };
        if del <= ins && del <= sub {
            del
        } else if ins <= sub {
            ins
        } else {
            sub
        }
    }
}

/// Relies on `edit_distance::edit_distance`: the Levenshtein distance, counted in characters.
#[verifier::external_body]
fn edit_distance_of(a: &str, b: &str) -> (r: usize)
    ensures
        r == levenshtein(a@, b@),
{
    edit_distance::edit_distance(a, b)
}

pub proof fn lemma_levenshtein_bound(a: Seq<char>, b: Seq<char>)
    ensures
        levenshtein(a, b) <= if a.len() >= b.len() {
            a.len()
        } else {
            b.len()
        },
    decreases a.len() + b.len(),
{
    if a.len() > 0 && b.len() > 0 {
        lemma_levenshtein_bound(a.drop_last(), b.drop_last());
    }
}

/// A directory name without a trailing `" (YYYY[-MM-DD])"`, whitespace before it included.
pub open spec fn strip_release_date(s: Seq<char>) -> Seq<char> {
    let k = last_index_of(s, '(');
    if 1 <= k && k + 2 <= s.len() && s.last() == ')' && is_ws(s[k - 1])
        && is_release_date(s.subrange(k + 1, s.len() - 1)) {
        trim_end(s.subrange(0, k))
    } else {
        s
    }
}

/// Whether a library entry of `entry_len` characters at `distance` from a
/// search name of `name_len` characters reaches `percent` similarity:
/// `(longer - distance) / longer * 100 >= percent`. Two empty names are 0% similar.
/// Lengths are counted in characters, the unit the edit distance counts in, so
/// a name with non-ASCII letters is not made to look longer than it is.
pub open spec fn is_similar(entry_len: nat, name_len: nat, distance: nat, percent: nat) -> bool {
    let longer = if entry_len >= name_len {
        entry_len
    } else {
        name_len
    };
    if longer == 0 {
        percent == 0
    } else {
        (longer - distance) * 100 >= percent * longer
    }
}

/// The entries close enough to `name`, in listing order, each with its distance.
pub open spec fn close_entries(entries: Seq<Seq<char>>, name: Seq<char>, percent: nat) -> Seq<
    (nat, Seq<char>),
>
    decreases entries.len(),
{
    if entries.len() == 0 {
        Seq::empty()
    } else {
        let p = close_entries(entries.drop_last(), name, percent);
        let t = strip_release_date(entries.last());
        let d = levenshtein(t, name);
        if is_similar(t.len(), name.len(), d, percent) {
            p.push((d, entries.last()))
        } else {
            p
        }
    }
}

/// The entries of `c` at distance `d`, in order.
pub open spec fn at_distance(c: Seq<(nat, Seq<char>)>, d: nat) -> Seq<Seq<char>>
    decreases c.len(),
{
    if c.len() == 0 {
        Seq::empty()
    } else if c.last().0 == d {
        at_distance(c.drop_last(), d).push(c.last().1)
    } else {
        at_distance(c.drop_last(), d)
    }
}

/// The entries of `c` at distances below `n`: by ascending distance, ties in order.
pub open spec fn below_distance(c: Seq<(nat, Seq<char>)>, n: nat) -> Seq<Seq<char>>
    decreases n,
{
    if n == 0 {
        Seq::empty()
    } else {
        below_distance(c, (n - 1) as nat) + at_distance(c, (n - 1) as nat)
    }
}

pub open spec fn max_distance(c: Seq<(nat, Seq<char>)>) -> nat
    decreases c.len(),
{
    if c.len() == 0 {
        0
    } else {
        let m = max_distance(c.drop_last());
        if c.last().0 > m {
            c.last().0
        } else {
            m
        }
    }
}

/// The close entries, sorted by ascending edit distance; entries at the same
/// distance keep their listing order.
pub open spec fn disk_matches(entries: Seq<Seq<char>>, name: Seq<char>, percent: nat) -> Seq<
    Seq<char>,
> {
    let c = close_entries(entries, name, percent);
    below_distance(c, max_distance(c) + 1)
}

/// What the disk resolver offers for the listed entries.
pub open spec fn disk_options(entries: Seq<Seq<char>>, name: Seq<char>, percent: nat) -> Option<
    RenamedMediaOptionsView,
> {
    let m = disk_matches(entries, name, percent);
    if m.len() == 0 {
        None
    } else {
        Some(
            RenamedMediaOptionsView {
                origin: MediaRenameOrigin::DISK,
                descriptions: m.map_values(|t: Seq<char>| title_description(t)),
            },
        )
    }
}

/// Whether `below_distance` reached every entry: nothing is left above `n`.
pub proof fn lemma_below_distance_empty(c: Seq<(nat, Seq<char>)>, n: nat)
    requires
        below_distance(c, n).len() == 0,
        n > max_distance(c),
    ensures
        c.len() == 0,
    decreases c.len(),
{
    if c.len() > 0 {
        let d = c.last().0;
        assert(d <= max_distance(c));
        lemma_below_contains(c, n, d);
    }
}

proof fn lemma_below_contains(c: Seq<(nat, Seq<char>)>, n: nat, d: nat)
    requires
        d < n,
        c.len() > 0,
        c.last().0 == d,
    ensures
        below_distance(c, n).len() > 0,
    decreases n,
{
    if d == n - 1 {
        assert(at_distance(c, d).len() > 0);
    } else {
        lemma_below_contains(c, (n - 1) as nat, d);
    }
}

/// The end of `v` up to `hi` once trailing whitespace is dropped.
fn trim_end_at(v: &Vec<char>, hi: usize) -> (b: usize)
    requires
        hi <= v@.len(),
    ensures
        b <= hi,
        v@.subrange(0, b as int) == trim_end(v@.subrange(0, hi as int)),
{
    let mut b: usize = hi;
    while b > 0 && is_ws_char(v[b - 1])
        invariant
            b <= hi <= v@.len(),
            trim_end(v@.subrange(0, hi as int)) == trim_end(v@.subrange(0, b as int)),
        decreases b,
    {
        proof {
            lemma_trim_end_step(v@, 0, b as int);
        }
        b = b - 1;
    }
    b
}

/// A directory name without its trailing release date.
pub fn strip_release_date_chars(v: &Vec<char>) -> (r: Vec<char>)
    ensures
        r@ == strip_release_date(v@),
{
    match find_last(v, '(') {
        Some(k) => {
            let n = v.len();
            if k >= 1 && n - k >= 2 && v[n - 1] == ')' && is_ws_char(v[k - 1])
                && is_release_date_in(v, k + 1, n - 1) {
                let b = trim_end_at(v, k);
                copy_range(v, 0, b)
            } else {
                copy_range(v, 0, n)
            }
        },
        None => copy_range(v, 0, v.len()),
    }
}

/// Whether a library entry stays a candidate: the test of `is_similar` on machine integers.
pub fn exclude_unsimilar(entry_len: usize, name_len: usize, distance: usize, percent: u8) -> (r: bool)
    requires
        distance <= entry_len || distance <= name_len,
    ensures
        r == is_similar(entry_len as nat, name_len as nat, distance as nat, percent as nat),
{
    let longer: usize = if entry_len >= name_len {
        entry_len
    } else {
        name_len
    };
    if longer == 0 {
        percent == 0
    } else {
        let p: u128 = percent as u128;
        let l: u128 = longer as u128;
        assert(p * l <= 255 * 18446744073709551615) by (nonlinear_arith)
            requires
                p <= 255,
                l <= 18446744073709551615,
        ;
        ((longer - distance) as u128) * 100 >= p * l
    }
}

pub struct DiskRenamer {
    movies_path: String,
    tv_path: String,
    max_depth: u8,
    similarity_percent: u8,
    generator: NameGenerator,
}

impl DiskRenamer {
    pub closed spec fn percent(&self) -> nat {
        self.similarity_percent as nat
    }

    pub closed spec fn root_of(&self, media_type: MediaFileType) -> Seq<char> {
        match media_type {
            MediaFileType::TV => self.tv_path@,
            _ => self.movies_path@,
        }
    }

    pub closed spec fn depth(&self) -> u8 {
        self.max_depth
    }

    pub fn new(settings: &Settings) -> (r: Result<Self, RenameError>)
        ensures
            r is Ok <==> all_valid_patterns(settings.rename.trim_regex@),
            r matches Ok(d) ==> {
                &&& d.percent() == settings.rename.similarity_percent as nat
                &&& d.root_of(MediaFileType::MOVIE) == settings.filesystem.movies_path@
                &&& d.root_of(MediaFileType::TV) == settings.filesystem.tv_path@
                &&& d.depth() == settings.rename.max_depth
            },
            r matches Err(e) ==> e == RenameError::InvalidTrimPattern,
    {
        let generator = NameGenerator::new(settings)?;
        Ok(
            DiskRenamer {
                movies_path: settings.filesystem.movies_path.clone(),
                tv_path: settings.filesystem.tv_path.clone(),
                max_depth: settings.rename.max_depth,
                similarity_percent: settings.rename.similarity_percent,
                generator,
            },
        )
    }

    /// The library directory to list for `media_type`; `UNKNOWN` has none.
    pub fn library_root(&self, media_type: MediaFileType) -> (r: Result<String, RenameError>)
        ensures
            media_type == MediaFileType::UNKNOWN ==> r == Err::<String, RenameError>(
                RenameError::InvalidMediaType,
            ),
            media_type != MediaFileType::UNKNOWN ==> (r matches Ok(p) && p@ == self.root_of(
                media_type,
            )),
    {
        match media_type {
            MediaFileType::MOVIE => Ok(self.movies_path.clone()),
            MediaFileType::TV => Ok(self.tv_path.clone()),
            MediaFileType::UNKNOWN => Err(RenameError::InvalidMediaType),
        }
    }

    /// How deep below the library root directories are listed.
    pub fn max_depth(&self) -> (r: u8)
        ensures
            r == self.depth(),
    {
        self.max_depth
    }

    /// The options that the listed library entries give for `base`: the entries
    /// close enough to its name, best first, or `None` when there is none.
    pub fn options_from_entries(&self, base: &BaseInfo, entries: Vec<String>) -> (r: Option<
        RenamedMediaOptions,
    >)
        ensures
            r matches Some(o) ==> disk_options(strings_view(entries@), base@.name, self.percent())
                == Some(o@),
            r is None ==> disk_options(strings_view(entries@), base@.name, self.percent())
                is None,
    {
        let ghost ev = strings_view(entries@);
        let ghost name = base@.name;
        let ghost percent = self.percent();
        let mut dists: Vec<usize> = Vec::new();
        let mut kept: Vec<usize> = Vec::new();
        let mut top: usize = 0;
        let name_chars = chars_of(base.name());
        let mut i: usize = 0;
        while i < entries.len()
            invariant
                i <= entries@.len(),
                name_chars@ == name,
                ev == strings_view(entries@),
                name == base@.name,
                percent == self.percent(),
                dists@.len() == kept@.len(),
                forall|j: int| 0 <= j < kept@.len() ==> #[trigger] kept@[j] < entries@.len(),
                close_entries(ev.subrange(0, i as int), name, percent) == Seq::new(
                    kept@.len(),
                    |j: int| (dists@[j] as nat, ev[kept@[j] as int]),
                ),
                top == max_distance(close_entries(ev.subrange(0, i as int), name, percent)),
            decreases entries@.len() - i,
        {
            let ghost prev = close_entries(ev.subrange(0, i as int), name, percent);
            assert(ev.subrange(0, i + 1).drop_last() =~= ev.subrange(0, i as int));
            let v = chars_of(entries[i].as_str());
            let t = strip_release_date_chars(&v);
            let ts = string_of(&t);
            let d = edit_distance_of(ts.as_str(), base.name());
            proof {
                lemma_levenshtein_bound(t@, name);
            }
            assert(ev[i as int] == entries@[i as int]@);
            assert(ev.subrange(0, i + 1).last() == ev[i as int]);
            let ghost cur = close_entries(ev.subrange(0, i + 1), name, percent);
            if exclude_unsimilar(t.len(), name_chars.len(), d, self.similarity_percent) {
                assert(cur == prev.push((d as nat, ev[i as int])));
                assert(cur.drop_last() =~= prev);
                dists.push(d);
                kept.push(i);
                if d > top {
                    top = d;
                }
            } else {
                assert(cur == prev);
            }
            i = i + 1;
            assert(close_entries(ev.subrange(0, i as int), name, percent) =~= Seq::new(
                kept@.len(),
                |j: int| (dists@[j] as nat, ev[kept@[j] as int]),
            ));
        }
        assert(ev.subrange(0, i as int) =~= ev);
        let ghost c = close_entries(ev, name, percent);
        let mut ordered: Vec<String> = Vec::new();
        let mut d: u128 = 0;
        while d <= top as u128
            invariant
                d <= top + 1,
                top == max_distance(c),
                c == Seq::new(kept@.len(), |j: int| (dists@[j] as nat, ev[kept@[j] as int])),
                ev == strings_view(entries@),
                dists@.len() == kept@.len(),
                forall|j: int| 0 <= j < kept@.len() ==> #[trigger] kept@[j] < entries@.len(),
                strings_view(ordered@) == below_distance(c, d as nat),
            decreases top + 1 - d,
        {
            let ghost before = ordered@;
            let mut j: usize = 0;
            while j < kept.len()
                invariant
                    j <= kept@.len(),
                    d <= top,
                    c == Seq::new(kept@.len(), |j: int| (dists@[j] as nat, ev[kept@[j] as int])),
                    ev == strings_view(entries@),
                    dists@.len() == kept@.len(),
                    forall|j: int| 0 <= j < kept@.len() ==> #[trigger] kept@[j] < entries@.len(),
                    strings_view(ordered@) == strings_view(before) + at_distance(
                        c.subrange(0, j as int),
                        d as nat,
                    ),
                decreases kept@.len() - j,
            {
                assert(c.subrange(0, j + 1).drop_last() =~= c.subrange(0, j as int));
                assert(c.subrange(0, j + 1).last() == c[j as int]);
                assert(c[j as int].1 == ev[kept@[j as int] as int]);
                assert(ev[kept@[j as int] as int] == entries@[kept@[j as int] as int]@);
                if dists[j] as u128 == d {
                    let ghost old_ordered = ordered@;
                    ordered.push(entries[kept[j]].clone());
                    assert(strings_view(ordered@) =~= strings_view(old_ordered).push(
                        entries@[kept@[j as int] as int]@,
                    ));
                    assert(strings_view(ordered@) =~= strings_view(before) + at_distance(
                        c.subrange(0, j + 1),
                        d as nat,
                    ));
                }
                j = j + 1;
            }
            assert(c.subrange(0, j as int) =~= c);
            d = d + 1;
        }
        if ordered.len() == 0 {
            proof {
                lemma_below_distance_empty(c, (top + 1) as nat);
            }
            None
        } else {
            let descriptions = self.generator.generate_media_descriptions(ordered);
            let r = RenamedMediaOptions::new(MediaRenameOrigin::DISK, descriptions);
            assert(r@.descriptions =~= disk_matches(ev, name, percent).map_values(
                |t: Seq<char>| title_description(t),
            ));
            Some(r)
        }
    }
}

} // verus!
