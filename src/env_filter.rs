//! The filter expression given at start-up: `level` and `path=level`
//! directives separated by commas.
use vstd::prelude::*;
use crate::filter::{FilterEntry, FilterTable};
use crate::level::{level_named, Level};

verus! {

/// Why a filter expression was refused.
#[derive(Clone, Copy, Debug, PartialEq, Eq, Structural)]
pub enum FilterParseError {
    /// A directive names no level.
    UnknownLevel,
    /// A `path=level` directive has an empty path.
    EmptyPath,
}

/// A parsed filter expression: the default level, when one is given, and the
/// entries in the order they appear.
pub struct EnvFilter {
    pub default_level: Option<Level>,
    pub entries: Vec<FilterEntry>,
}

/// The first position at or after `i` that holds `c`, or the length when none does.
pub open spec fn first_index_of(s: Seq<char>, c: char, i: int) -> int
    decreases s.len() - i,
{
    if i < 0 || i >= s.len() {
        s.len() as int
    } else if s[i] == c {
        i
    } else {
        first_index_of(s, c, i + 1)
    }
}

/// The entries of a parsed expression as paths and levels.
pub open spec fn entries_chars(v: Seq<FilterEntry>) -> Seq<(Seq<char>, Level)> {
    v.map_values(|e: FilterEntry| (e.path@, e.level))
}

/// What one directive gives: nothing when empty, a default level for a bare
/// level name, an entry for `path=level`.
pub open spec fn parse_directive(d: Seq<char>) -> Result<
    (Option<Level>, Option<(Seq<char>, Level)>),
    FilterParseError,
> {
    let eq = first_index_of(d, '=', 0);
    if d.len() == 0 {
        Ok((None, None))
    } else if eq == d.len() {
        match level_named(d) {
            Some(l) => Ok((Some(l), None)),
            None => Err(FilterParseError::UnknownLevel),
        }
    } else if eq == 0 {
        Err(FilterParseError::EmptyPath)
    } else {
        match level_named(d.subrange(eq + 1, d.len() as int)) {
            Some(l) => Ok((None, Some((d.subrange(0, eq), l)))),
            None => Err(FilterParseError::UnknownLevel),
        }
    }
}

/// The expression parsed from position `pos`: directives in order, the first
/// refused one deciding the error, and a later default level overriding an
/// earlier one.
pub open spec fn parse_from(s: Seq<char>, pos: int) -> Result<
    (Option<Level>, Seq<(Seq<char>, Level)>),
    FilterParseError,
>
    decreases s.len() - pos,
{
    if pos < 0 || pos > s.len() {
        Ok((None, Seq::empty()))
    } else {
        let j = first_index_of(s, ',', pos);
        match parse_directive(s.subrange(pos, j)) {
            Err(e) => Err(e),
            Ok((d, entry)) => {
                let rest = if j < s.len() && j >= pos {
                    parse_from(s, j + 1)
                } else {
                    Ok((None, Seq::empty()))
                };
                match rest {
                    Err(e) => Err(e),
                    Ok((rd, rentries)) => Ok(
                        (
                            if rd is Some {
                                rd
                            } else {
                                d
                            },
                            match entry {
                                Some(en) => seq![en] + rentries,
                                None => rentries,
                            },
                        ),
                    ),
                }
            },
        }
    }
}

proof fn lemma_first_index_bounds(s: Seq<char>, c: char, i: int)
    requires
        0 <= i <= s.len(),
    ensures
        i <= first_index_of(s, c, i) <= s.len(),
        first_index_of(s, c, i) < s.len() ==> s[first_index_of(s, c, i)] == c,
        forall|k: int| i <= k < first_index_of(s, c, i) ==> s[k] != c,
    decreases s.len() - i,
{
    if i < s.len() && s[i] != c {
        lemma_first_index_bounds(s, c, i + 1);
    }
}

/// The first position at or after `from` that holds `c`, or `len`.
fn find_char(s: &str, len: usize, c: char, from: usize) -> (r: usize)
    requires
        len == s@.len(),
        from <= len,
    ensures
        r as int == first_index_of(s@, c, from as int),
{
    let mut i: usize = from;
    while i < len && s.get_char(i) != c
        invariant
            len == s@.len(),
            from <= i <= len,
            first_index_of(s@, c, i as int) == first_index_of(s@, c, from as int),
        decreases len - i,
    {
        i = i + 1;
    }
    i
}

fn parse_directive_at(s: &str, len: usize, from: usize, to: usize) -> (r: Result<
    (Option<Level>, Option<FilterEntry>),
    FilterParseError,
>)
    requires
        len == s@.len(),
        from <= to <= len,
    ensures
        match r {
            Ok((d, entry)) => parse_directive(s@.subrange(from as int, to as int)) == Ok::<
                (Option<Level>, Option<(Seq<char>, Level)>),
                FilterParseError,
            >(
                (
                    d,
                    match entry {
                        Some(e) => Some((e.path@, e.level)),
                        None => None,
                    },
                ),
            ),
            Err(e) => parse_directive(s@.subrange(from as int, to as int)) == Err::<
                (Option<Level>, Option<(Seq<char>, Level)>),
                FilterParseError,
            >(e),
        },
{
    let d = s.substring_char(from, to);
    let dlen = to - from;
    if dlen == 0 {
        return Ok((None, None));
    }
    let eq = find_char(d, dlen, '=', 0);
    if eq == dlen {
        return match Level::from_name(d) {
            Some(l) => Ok((Some(l), None)),
            None => Err(FilterParseError::UnknownLevel),
        };
    }
    if eq == 0 {
        return Err(FilterParseError::EmptyPath);
    }
    proof {
        lemma_first_index_bounds(d@, '=', 0);
    }
    let value = d.substring_char(eq + 1, dlen);
    match Level::from_name(value) {
        Some(l) => {
            let path = d.substring_char(0, eq).to_owned();
            Ok((None, Some(FilterEntry { path, level: l })))
        },
        None => Err(FilterParseError::UnknownLevel),
    }
}

fn parse_at(s: &str, len: usize, pos: usize) -> (r: Result<EnvFilter, FilterParseError>)
    requires
        len == s@.len(),
        pos <= len,
    ensures
        match r {
            Ok(f) => parse_from(s@, pos as int) == Ok::<
                (Option<Level>, Seq<(Seq<char>, Level)>),
                FilterParseError,
            >((f.default_level, entries_chars(f.entries@))),
            Err(e) => parse_from(s@, pos as int) == Err::<
                (Option<Level>, Seq<(Seq<char>, Level)>),
                FilterParseError,
            >(e),
        },
    decreases len - pos,
{
    let j = find_char(s, len, ',', pos);
    proof {
        lemma_first_index_bounds(s@, ',', pos as int);
    }
    let (d, entry) = match parse_directive_at(s, len, pos, j) {
        Ok(x) => x,
        Err(e) => {
            return Err(e);
        },
    };
    let rest = if j < len {
        parse_at(s, len, j + 1)
    } else {
        Ok(EnvFilter { default_level: None, entries: Vec::new() })
    };
    proof {
        if j >= len {
            assert(entries_chars(Seq::<FilterEntry>::empty()) =~= Seq::empty());
        }
    }
    match rest {
        Err(e) => Err(e),
        Ok(r) => {
            let default_level = if r.default_level.is_some() {
                r.default_level
            } else {
                d
            };
            let ghost old_entries = r.entries@;
            let mut entries = r.entries;
            match entry {
                Some(e) => {
                    let ghost en = (e.path@, e.level);
                    entries.insert(0, e);
                    assert(entries_chars(entries@) =~= seq![en] + entries_chars(old_entries));
                },
                None => {},
            }
            Ok(EnvFilter { default_level, entries })
        },
    }
}

/// Parses a filter expression: comma-separated directives, each either a level
/// name, which sets the default level, or `path=level`, which adds an entry.
/// Empty directives are skipped.
pub fn parse_env_filter(s: &str) -> (r: Result<EnvFilter, FilterParseError>)
    ensures
        match r {
            Ok(f) => parse_from(s@, 0) == Ok::<
                (Option<Level>, Seq<(Seq<char>, Level)>),
                FilterParseError,
            >((f.default_level, entries_chars(f.entries@))),
            Err(e) => parse_from(s@, 0) == Err::<
                (Option<Level>, Seq<(Seq<char>, Level)>),
                FilterParseError,
            >(e),
        },
{
    let len = s.unicode_len();
    parse_at(s, len, 0)
}

impl FilterTable {
    /// Installs a parsed filter expression: its entries replace the table's,
    /// and its default level, when it gives one, replaces the table's.
    pub fn apply_env_filter(&mut self, f: EnvFilter)
        ensures
            final(self).entries@ == f.entries@,
            final(self).default_level == match f.default_level {
                Some(l) => l,
                None => old(self).default_level,
            },
    {
        match f.default_level {
            Some(l) => {
                self.default_level = l;
            },
            None => {},
        }
        self.refresh(f.entries);
    }
}

} // verus!
