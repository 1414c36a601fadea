//! Reader for the small TOML subset that command files are written in:
//! `[metadata]`, `[action]` and `[match.<field>]` sections holding
//! `key = "string"` or `key = ["string", ...]` entries, with `#` comments.
use vstd::prelude::*;

use crate::error::{ConfigError, ConfigErrorModel};
use crate::table::{
    keys_sorted, lemma_get_absent, lemma_get_prefix, lemma_insert_members, lemma_insert_prefix,
    lemma_insert_sorted, table_get, table_insert, Table, TableValue,
};
use crate::text::{lemma_text_lt_irreflexive, lemma_text_lt_transitive, text_lt};
use crate::text::{
    chars_eq, chars_of, is_ws, starts_with, string_from_chars, strip_all_prefix, sub_chars,
    trim, trim_chars,
};

verus! {

// ---------------------------------------------------------------------------
// Specification of the format
// ---------------------------------------------------------------------------
/// The first position at or after `k` that holds a line feed, or the length.
pub open spec fn next_newline(s: Seq<char>, k: int) -> int
    decreases s.len() - k,
{
    if k >= s.len() {
        s.len() as int
    } else if s[k] == '\n' {
        k
    } else {
        next_newline(s, k + 1)
    }
}

pub proof fn lemma_next_newline_bounds(s: Seq<char>, k: int)
    requires
        0 <= k <= s.len(),
    ensures
        k <= next_newline(s, k) <= s.len(),
        next_newline(s, k) < s.len() ==> s[next_newline(s, k)] == '\n',
    decreases s.len() - k,
{
    if k < s.len() && s[k] != '\n' {
        lemma_next_newline_bounds(s, k + 1);
    }
}

/// A line without the carriage return of a `\r\n` ending.
pub open spec fn strip_cr(l: Seq<char>) -> Seq<char> {
    if l.len() > 0 && l.last() == '\r' {
        l.drop_last()
    } else {
        l
    }
}

/// `str::lines` on the text from `start` on: split at `\n`, a `\r` before
/// the `\n` dropped, no empty line after a final line ending.
pub open spec fn lines_from(s: Seq<char>, start: int) -> Seq<Seq<char>>
    decreases s.len() - start,
{
    if start < 0 || start >= s.len() {
        seq![]
    } else {
        let j = next_newline(s, start);
        proof {
            lemma_next_newline_bounds(s, start);
        }
        if j >= s.len() {
            seq![s.subrange(start, s.len() as int)]
        } else {
            seq![strip_cr(s.subrange(start, j))] + lines_from(s, j + 1)
        }
    }
}

/// The lines of a text.
pub open spec fn lines(s: Seq<char>) -> Seq<Seq<char>> {
    lines_from(s, 0)
}

/// Where a `#` comment starts (scanning from `i` with the given string
/// state), or the length when there is none outside a quoted string.
pub open spec fn comment_cut(line: Seq<char>, i: int, in_string: bool, escaped: bool) -> int
    decreases line.len() - i,
{
    if i < 0 || i >= line.len() {
        line.len() as int
    } else {
        let ch = line[i];
        if ch == '\\' && in_string {
            comment_cut(line, i + 1, in_string, !escaped)
        } else if ch == '"' && !escaped {
            comment_cut(line, i + 1, !in_string, escaped)
        } else if ch == '#' && !in_string {
            i
        } else {
            comment_cut(line, i + 1, in_string, false)
        }
    }
}

/// A line without its comment.
pub open spec fn comment_stripped(line: Seq<char>) -> Seq<char> {
    line.take(comment_cut(line, 0, false, false))
}

/// The items of an array body, split at commas outside quoted strings.
pub open spec fn split_from(v: Seq<char>, i: int, start: int, in_string: bool, escaped: bool) -> Seq<
    Seq<char>,
>
    decreases v.len() - i,
{
    if i < 0 || i >= v.len() {
        seq![v.subrange(start, v.len() as int)]
    } else {
        let ch = v[i];
        if ch == '\\' && in_string {
            split_from(v, i + 1, start, in_string, !escaped)
        } else if ch == '"' && !escaped {
            split_from(v, i + 1, start, !in_string, escaped)
        } else if ch == ',' && !in_string {
            seq![v.subrange(start, i)] + split_from(v, i + 1, i + 1, in_string, escaped)
        } else {
            split_from(v, i + 1, start, in_string, false)
        }
    }
}

pub open spec fn array_items(v: Seq<char>) -> Seq<Seq<char>> {
    split_from(v, 0, 0, false, false)
}

/// What an escape `\c` stands for.
pub open spec fn escape_of(c: char) -> Seq<char> {
    if c == 'n' {
        seq!['\n']
    } else if c == 't' {
        seq!['\t']
    } else if c == 'r' {
        seq!['\r']
    } else if c == '"' {
        seq!['"']
    } else if c == '\\' {
        seq!['\\']
    } else {
        seq!['\\', c]
    }
}

pub open spec fn opt_prepend(p: Seq<char>, o: Option<Seq<char>>) -> Option<Seq<char>> {
    match o {
        Some(r) => Some(p + r),
        None => None,
    }
}

/// The body of a quoted string with its escapes resolved; `None` when it
/// ends in a lone backslash.
pub open spec fn unescape(raw: Seq<char>) -> Option<Seq<char>>
    decreases raw.len(),
{
    if raw.len() == 0 {
        Some(seq![])
    } else if raw[0] == '\\' {
        if raw.len() == 1 {
            None
        } else {
            opt_prepend(escape_of(raw[1]), unescape(raw.skip(2)))
        }
    } else {
        opt_prepend(seq![raw[0]], unescape(raw.skip(1)))
    }
}

pub enum StringError {
    NotQuoted,
    TrailingEscape,
}

/// A quoted string literal.
pub open spec fn parse_quoted(v: Seq<char>) -> Result<Seq<char>, StringError> {
    if !(v.len() >= 2 && v[0] == '"' && v.last() == '"') {
        Err(StringError::NotQuoted)
    } else {
        match unescape(v.subrange(1, v.len() - 1)) {
            Some(s) => Ok(s),
            None => Err(StringError::TrailingEscape),
        }
    }
}

/// The items of an array, each a quoted string after trimming.
pub open spec fn parse_items(items: Seq<Seq<char>>) -> Result<Seq<Seq<char>>, StringError>
    decreases items.len(),
{
    if items.len() == 0 {
        Ok(seq![])
    } else {
        match parse_quoted(trim(items[0])) {
            Err(e) => Err(e),
            Ok(s) => match parse_items(items.drop_first()) {
                Err(e) => Err(e),
                Ok(rest) => Ok(seq![s] + rest),
            },
        }
    }
}

/// A value as the specification sees it.
pub enum ValueModel {
    Text(Seq<char>),
    List(Seq<Seq<char>>),
}

pub enum ValueError {
    Unsupported,
    Str(StringError),
}

/// The value on the right of `=`.
pub open spec fn parse_value(v: Seq<char>) -> Result<ValueModel, ValueError> {
    if v.len() > 0 && v[0] == '"' {
        match parse_quoted(v) {
            Ok(s) => Ok(ValueModel::Text(s)),
            Err(e) => Err(ValueError::Str(e)),
        }
    } else if v.len() > 0 && v[0] == '[' && v.last() == ']' {
        let inner = trim(v.subrange(1, v.len() - 1));
        if inner.len() == 0 {
            Ok(ValueModel::List(seq![]))
        } else {
            match parse_items(array_items(inner)) {
                Ok(items) => Ok(ValueModel::List(items)),
                Err(e) => Err(ValueError::Str(e)),
            }
        }
    } else {
        Err(ValueError::Unsupported)
    }
}

pub enum SectionModel {
    Metadata,
    Action,
    Match(Seq<char>),
}

/// The section a header names, if it is one of the supported ones.
pub open spec fn section_for(name: Seq<char>) -> Option<SectionModel> {
    if name == "metadata"@ {
        Some(SectionModel::Metadata)
    } else if name == "action"@ {
        Some(SectionModel::Action)
    } else if "match."@.is_prefix_of(name) {
        Some(SectionModel::Match(strip_all_prefix(name, "match."@)))
    } else {
        None
    }
}

pub type EntriesModel = Seq<(Seq<char>, ValueModel)>;

/// The entries of a command file, grouped by section.
pub struct RawModel {
    pub metadata: EntriesModel,
    pub action: EntriesModel,
    pub predicates: Seq<(Seq<char>, EntriesModel)>,
}

pub struct ParseState {
    pub raw: RawModel,
    pub section: Option<SectionModel>,
}

/// The first position at or after `k` that holds `c`, or `-1`.
pub open spec fn find_char(s: Seq<char>, c: char, k: int) -> int
    decreases s.len() - k,
{
    if k < 0 || k >= s.len() {
        -1
    } else if s[k] == c {
        k
    } else {
        find_char(s, c, k + 1)
    }
}

/// `entry(field).or_default().insert(key, value)` on the match table.
pub open spec fn match_insert(
    t: Seq<(Seq<char>, EntriesModel)>,
    field: Seq<char>,
    key: Seq<char>,
    value: ValueModel,
) -> Seq<(Seq<char>, EntriesModel)> {
    let inner = match table_get(t, field) {
        Some(e) => e,
        None => seq![],
    };
    table_insert(t, field, table_insert(inner, key, value))
}

pub open spec fn value_error(source: Seq<char>, line: nat, e: ValueError) -> ConfigErrorModel {
    match e {
        ValueError::Unsupported => ConfigErrorModel::UnsupportedValue { source, line },
        ValueError::Str(StringError::NotQuoted) => ConfigErrorModel::ExpectedQuotedString {
            source,
            line,
        },
        ValueError::Str(StringError::TrailingEscape) => ConfigErrorModel::TrailingEscape {
            source,
            line,
        },
    }
}

/// The effect of one line of a command file.
pub open spec fn line_step(source: Seq<char>, st: ParseState, raw_line: Seq<char>, line: nat) -> Result<
    ParseState,
    ConfigErrorModel,
> {
    let l = trim(comment_stripped(raw_line));
    if l.len() == 0 {
        Ok(st)
    } else if l[0] == '[' && l.last() == ']' {
        let name = l.subrange(1, l.len() - 1);
        match section_for(name) {
            None => Err(ConfigErrorModel::UnsupportedSection { source, line, name }),
            Some(sec) => Ok(ParseState { raw: st.raw, section: Some(sec) }),
        }
    } else {
        let eq = find_char(l, '=', 0);
        if eq < 0 {
            Err(ConfigErrorModel::ExpectedKeyValue { source, line })
        } else {
            let key = trim(l.take(eq));
            match parse_value(trim(l.skip(eq + 1))) {
                Err(e) => Err(value_error(source, line, e)),
                Ok(v) => match st.section {
                    Some(SectionModel::Metadata) => Ok(
                        ParseState {
                            raw: RawModel {
                                metadata: table_insert(st.raw.metadata, key, v),
                                ..st.raw
                            },
                            ..st
                        },
                    ),
                    Some(SectionModel::Action) => Ok(
                        ParseState {
                            raw: RawModel { action: table_insert(st.raw.action, key, v), ..st.raw },
                            ..st
                        },
                    ),
                    Some(SectionModel::Match(field)) => Ok(
                        ParseState {
                            raw: RawModel {
                                predicates: match_insert(st.raw.predicates, field, key, v),
                                ..st.raw
                            },
                            ..st
                        },
                    ),
                    None => Err(ConfigErrorModel::KeyOutsideSection { source, line }),
                },
            }
        }
    }
}

/// The effect of lines `i..` (lines are numbered from one).
pub open spec fn lines_step(
    source: Seq<char>,
    ls: Seq<Seq<char>>,
    i: int,
    st: ParseState,
) -> Result<RawModel, ConfigErrorModel>
    decreases ls.len() - i,
{
    if i < 0 || i >= ls.len() {
        Ok(st.raw)
    } else {
        match line_step(source, st, ls[i], (i + 1) as nat) {
            Err(e) => Err(e),
            Ok(next) => lines_step(source, ls, i + 1, next),
        }
    }
}

pub open spec fn empty_raw() -> RawModel {
    RawModel { metadata: seq![], action: seq![], predicates: seq![] }
}

/// The entries of a command file, or the first error in it.
pub open spec fn parse_file(source_name: Seq<char>, text: Seq<char>) -> Result<
    RawModel,
    ConfigErrorModel,
> {
    lines_step(source_name, lines(text), 0, ParseState { raw: empty_raw(), section: None })
}

// ---------------------------------------------------------------------------
// Executable reader
// ---------------------------------------------------------------------------
/// A value of a command file.
#[derive(Debug)]
pub enum RawValue {
    Text(Vec<char>),
    List(Vec<Vec<char>>),
}

pub open spec fn texts_model(v: Seq<Vec<char>>) -> Seq<Seq<char>> {
    v.map_values(|x: Vec<char>| x@)
}

impl TableValue for RawValue {
    type Model = ValueModel;

    open spec fn value_model(&self) -> ValueModel {
        match self {
            RawValue::Text(t) => ValueModel::Text(t@),
            RawValue::List(l) => ValueModel::List(texts_model(l@)),
        }
    }
}

impl TableValue for Table<RawValue> {
    type Model = EntriesModel;

    open spec fn value_model(&self) -> EntriesModel {
        self.model()
    }
}

/// The entries of a command file, grouped by section.
pub struct RawConfig {
    pub metadata: Table<RawValue>,
    pub action: Table<RawValue>,
    pub predicates: Table<Table<RawValue>>,
}

impl RawConfig {
    pub open spec fn model(&self) -> RawModel {
        RawModel {
            metadata: self.metadata.model(),
            action: self.action.model(),
            predicates: self.predicates.model(),
        }
    }

    pub open spec fn wf(&self) -> bool {
        forall|i: int|
            0 <= i < self.predicates.model().len() ==> keys_sorted(
                #[trigger] self.predicates.model()[i].1,
            )
    }
}

pub enum Section {
    Metadata,
    Action,
    Match(Vec<char>),
}

impl Section {
    pub open spec fn model(&self) -> SectionModel {
        match self {
            Section::Metadata => SectionModel::Metadata,
            Section::Action => SectionModel::Action,
            Section::Match(f) => SectionModel::Match(f@),
        }
    }
}

pub open spec fn section_model(s: Option<Section>) -> Option<SectionModel> {
    match s {
        Some(x) => Some(x.model()),
        None => None,
    }
}

pub proof fn lemma_newline_skip(s: Seq<char>, start: int, i: int)
    requires
        0 <= start <= i <= s.len(),
        forall|k: int| start <= k < i ==> s[k] != '\n',
    ensures
        next_newline(s, start) == next_newline(s, i),
    decreases i - start,
{
    if start < i {
        lemma_newline_skip(s, start + 1, i);
    }
}

/// `str::lines`.
pub fn split_lines(s: &[char]) -> (out: Vec<Vec<char>>)
    ensures
        texts_model(out@) == lines(s@),
        out@.len() <= s@.len(),
{
    let mut out: Vec<Vec<char>> = Vec::new();
    let mut start: usize = 0;
    let mut i: usize = 0;
    while i < s.len()
        invariant
            start <= i <= s@.len(),
            lines(s@) == texts_model(out@) + lines_from(s@, start as int),
            forall|k: int| start <= k < i ==> s@[k] != '\n',
            out@.len() <= start,
        decreases s@.len() - i,
    {
        if s[i] == '\n' {
            proof {
                lemma_newline_skip(s@, start as int, i as int);
            }
            let mut line = sub_chars(s, start, i);
            if line.len() > 0 && line[line.len() - 1] == '\r' {
                line.pop();
            }
            let ghost before = out@;
            out.push(line);
            proof {
                assert(texts_model(out@) == texts_model(before) + seq![
                    strip_cr(s@.subrange(start as int, i as int)),
                ]) by {
                    assert(texts_model(out@) =~= texts_model(before) + seq![
                        strip_cr(s@.subrange(start as int, i as int)),
                    ]);
                }
                assert(lines(s@) =~= texts_model(out@) + lines_from(s@, i + 1));
            }
            start = i + 1;
        }
        i = i + 1;
    }
    if start < s.len() {
        proof {
            lemma_newline_skip(s@, start as int, i as int);
        }
        let line = sub_chars(s, start, s.len());
        let ghost before = out@;
        out.push(line);
        proof {
            assert(texts_model(out@) =~= texts_model(before) + seq![
                s@.subrange(start as int, s@.len() as int),
            ]);
            assert(lines(s@) =~= texts_model(out@));
        }
    } else {
        assert(lines(s@) =~= texts_model(out@));
    }
    out
}

/// A line without its `#` comment.
pub fn strip_comment(line: &[char]) -> (out: Vec<char>)
    ensures
        out@ == comment_stripped(line@),
{
    let mut in_string = false;
    let mut escaped = false;
    let mut i: usize = 0;
    while i < line.len()
        invariant
            i <= line@.len(),
            comment_cut(line@, 0, false, false) == comment_cut(line@, i as int, in_string, escaped),
        decreases line@.len() - i,
    {
        let ch = line[i];
        if ch == '\\' && in_string {
            escaped = !escaped;
        } else if ch == '"' && !escaped {
            in_string = !in_string;
        } else if ch == '#' && !in_string {
            return sub_chars(line, 0, i);
        } else {
            escaped = false;
        }
        i = i + 1;
    }
    assert(line@.take(line@.len() as int) == line@);
    sub_chars(line, 0, line.len())
}

/// The items of an array body.
pub fn split_array(v: &[char]) -> (out: Vec<Vec<char>>)
    ensures
        texts_model(out@) == array_items(v@),
{
    let mut out: Vec<Vec<char>> = Vec::new();
    let mut in_string = false;
    let mut escaped = false;
    let mut start: usize = 0;
    let mut i: usize = 0;
    assert(texts_model(out@) =~= seq![]);
    while i < v.len()
        invariant
            start <= i <= v@.len(),
            array_items(v@) == texts_model(out@) + split_from(
                v@,
                i as int,
                start as int,
                in_string,
                escaped,
            ),
        decreases v@.len() - i,
    {
        let ch = v[i];
        if ch == '\\' && in_string {
            escaped = !escaped;
        } else if ch == '"' && !escaped {
            in_string = !in_string;
        } else if ch == ',' && !in_string {
            let item = sub_chars(v, start, i);
            let ghost before = out@;
            out.push(item);
            assert(texts_model(out@) =~= texts_model(before) + seq![
                v@.subrange(start as int, i as int),
            ]);
            start = i + 1;
        } else {
            escaped = false;
        }
        i = i + 1;
    }
    let item = sub_chars(v, start, v.len());
    let ghost before = out@;
    out.push(item);
    assert(texts_model(out@) =~= texts_model(before) + seq![
        v@.subrange(start as int, v@.len() as int),
    ]);
    out
}

/// A quoted string literal.
pub fn parse_quoted_chars(v: &[char]) -> (r: Result<Vec<char>, StringError>)
    ensures
        match (r, parse_quoted(v@)) {
            (Ok(s), Ok(t)) => s@ == t,
            (Err(StringError::NotQuoted), Err(StringError::NotQuoted)) => true,
            (Err(StringError::TrailingEscape), Err(StringError::TrailingEscape)) => true,
            _ => false,
        },
{
    if !(v.len() >= 2 && v[0] == '"' && v[v.len() - 1] == '"') {
        return Err(StringError::NotQuoted);
    }
    let raw = sub_chars(v, 1, v.len() - 1);
    let mut parsed: Vec<char> = Vec::new();
    let mut i: usize = 0;
    assert(raw@.skip(0) == raw@);
    assert(opt_prepend(parsed@, unescape(raw@)) =~= unescape(raw@)) by {
        match unescape(raw@) {
            Some(x) => {
                assert(parsed@ + x =~= x);
            },
            None => {},
        }
    }
    while i < raw.len()
        invariant
            i <= raw@.len(),
            v@.len() >= 2 && v@[0] == '"' && v@.last() == '"',
            raw@ == v@.subrange(1, v@.len() - 1),
            unescape(raw@) == opt_prepend(parsed@, unescape(raw@.skip(i as int))),
        decreases raw@.len() - i,
    {
        let ghost p0 = parsed@;
        let ghost rest = raw@.skip(i as int);
        if raw[i] == '\\' {
            if i + 1 == raw.len() {
                assert(rest.len() == 1 && rest[0] == '\\');
                assert(unescape(rest) == None::<Seq<char>>);
                return Err(StringError::TrailingEscape);
            }
            let next = raw[i + 1];
            if next == 'n' {
                parsed.push('\n');
            } else if next == 't' {
                parsed.push('\t');
            } else if next == 'r' {
                parsed.push('\r');
            } else if next == '"' {
                parsed.push('"');
            } else if next == '\\' {
                parsed.push('\\');
            } else {
                parsed.push('\\');
                parsed.push(next);
            }
            proof {
                assert(rest.skip(2) == raw@.skip(i + 2));
                assert(parsed@ =~= p0 + escape_of(next));
                match unescape(raw@.skip(i + 2)) {
                    Some(x) => {
                        assert(p0 + (escape_of(next) + x) =~= parsed@ + x);
                    },
                    None => {},
                }
            }
            i = i + 2;
        } else {
            let c = raw[i];
            parsed.push(c);
            proof {
                assert(rest.skip(1) == raw@.skip(i + 1));
                assert(parsed@ =~= p0 + seq![c]);
                match unescape(raw@.skip(i + 1)) {
                    Some(x) => {
                        assert(p0 + (seq![c] + x) =~= parsed@ + x);
                    },
                    None => {},
                }
            }
            i = i + 1;
        }
    }
    proof {
        assert(raw@.skip(i as int).len() == 0);
        assert(parsed@ + seq![] =~= parsed@);
    }
    Ok(parsed)
}

pub open spec fn items_prepend(p: Seq<Seq<char>>, r: Result<Seq<Seq<char>>, StringError>) -> Result<
    Seq<Seq<char>>,
    StringError,
> {
    match r {
        Ok(x) => Ok(p + x),
        Err(e) => Err(e),
    }
}

/// The value on the right of `=`.
pub fn parse_value_chars(v: &[char]) -> (r: Result<RawValue, ValueError>)
    ensures
        match (r, parse_value(v@)) {
            (Ok(x), Ok(y)) => x.value_model() == y,
            (Err(ValueError::Unsupported), Err(ValueError::Unsupported)) => true,
            (
                Err(ValueError::Str(StringError::NotQuoted)),
                Err(ValueError::Str(StringError::NotQuoted)),
            ) => true,
            (
                Err(ValueError::Str(StringError::TrailingEscape)),
                Err(ValueError::Str(StringError::TrailingEscape)),
            ) => true,
            _ => false,
        },
{
    if v.len() > 0 && v[0] == '"' {
        return match parse_quoted_chars(v) {
            Ok(s) => Ok(RawValue::Text(s)),
            Err(e) => Err(ValueError::Str(e)),
        };
    }
    if v.len() > 0 && v[0] == '[' && v[v.len() - 1] == ']' {
        let body = sub_chars(v, 1, v.len() - 1);
        let inner = trim_chars(body.as_slice());
        if inner.len() == 0 {
            let empty: Vec<Vec<char>> = Vec::new();
            assert(texts_model(empty@) =~= seq![]);
            return Ok(RawValue::List(empty));
        }
        let items = split_array(inner.as_slice());
        let ghost all = texts_model(items@);
        let mut values: Vec<Vec<char>> = Vec::new();
        let mut i: usize = 0;
        assert(all.skip(0) == all);
        assert(items_prepend(texts_model(values@), parse_items(all)) =~= parse_items(all)) by {
            match parse_items(all) {
                Ok(x) => {
                    assert(texts_model(values@) + x =~= x);
                },
                Err(e) => {},
            }
        }
        while i < items.len()
            invariant
                i <= items@.len(),
                all == texts_model(items@),
                v@.len() > 0 && v@[0] == '[' && v@.last() == ']' && v@[0] != '"',
                inner@ == trim(v@.subrange(1, v@.len() - 1)),
                inner@.len() > 0,
                all == array_items(inner@),
                parse_items(all) == items_prepend(
                    texts_model(values@),
                    parse_items(all.skip(i as int)),
                ),
            decreases items@.len() - i,
        {
            let item = trim_chars(items[i].as_slice());
            let ghost rest = all.skip(i as int);
            assert(rest[0] == items@[i as int]@);
            match parse_quoted_chars(item.as_slice()) {
                Ok(s) => {
                    let ghost v0 = texts_model(values@);
                    let ghost sv = s@;
                    values.push(s);
                    proof {
                        assert(rest.drop_first() == all.skip(i + 1));
                        assert(texts_model(values@) =~= v0 + seq![sv]);
                        match parse_items(all.skip(i + 1)) {
                            Ok(x) => {
                                assert(v0 + (seq![sv] + x) =~= texts_model(values@) + x);
                            },
                            Err(e) => {},
                        }
                    }
                },
                Err(e) => {
                    assert(item@ == trim(rest[0]));
                    assert(parse_items(rest) == Err::<Seq<Seq<char>>, StringError>(e));
                    return Err(ValueError::Str(e));
                },
            }
            i = i + 1;
        }
        proof {
            assert(all.skip(i as int).len() == 0);
            assert(texts_model(values@) + seq![] =~= texts_model(values@));
        }
        return Ok(RawValue::List(values));
    }
    Err(ValueError::Unsupported)
}


impl RawConfig {
    pub fn new() -> (r: Self)
        ensures
            r.wf(),
            r.model() == empty_raw(),
    {
        RawConfig { metadata: Table::new(), action: Table::new(), predicates: Table::new() }
    }
}

/// The header name of a section, if it names a supported one.
fn section_for_chars(name: &[char]) -> (r: Option<Section>)
    ensures
        section_model(r) == section_for(name@),
{
    let metadata = chars_of("metadata");
    let action = chars_of("action");
    let prefix = chars_of("match.");
    if chars_eq(name, metadata.as_slice()) {
        return Some(Section::Metadata);
    }
    if chars_eq(name, action.as_slice()) {
        return Some(Section::Action);
    }
    if !starts_with(name, prefix.as_slice()) {
        return None;
    }
    let mut rest = sub_chars(name, 0, name.len());
    assert(rest@ =~= name@);
    proof {
        reveal_strlit("match.");
    }
    while starts_with(rest.as_slice(), prefix.as_slice())
        invariant
            prefix@ == "match."@,
            prefix@.len() == 6,
            strip_all_prefix(name@, prefix@) == strip_all_prefix(rest@, prefix@),
        decreases rest@.len(),
    {
        rest = sub_chars(rest.as_slice(), 6, rest.len());
    }
    Some(Section::Match(rest))
}

/// The first position of `c`, if any.
fn find_char_exec(s: &[char], c: char) -> (r: Option<usize>)
    ensures
        match r {
            Some(i) => i as int == find_char(s@, c, 0) && i < s@.len(),
            None => find_char(s@, c, 0) == -1,
        },
{
    let mut i: usize = 0;
    while i < s.len()
        invariant
            i <= s@.len(),
            find_char(s@, c, 0) == find_char(s@, c, i as int),
        decreases s@.len() - i,
    {
        if s[i] == c {
            return Some(i);
        }
        i = i + 1;
    }
    None
}

/// `entry(field).or_default().insert(key, value)` on the match table.
fn insert_match(preds: &mut Table<Table<RawValue>>, field: Vec<char>, key: Vec<char>, value: RawValue)
    requires
        forall|i: int|
            0 <= i < old(preds).model().len() ==> keys_sorted(#[trigger] old(preds).model()[i].1),
    ensures
        forall|i: int|
            0 <= i < final(preds).model().len() ==> keys_sorted(
                #[trigger] final(preds).model()[i].1,
            ),
        final(preds).model() == match_insert(
            old(preds).model(),
            field@,
            key@,
            value.value_model(),
        ),
{
    proof {
        use_type_invariant(&*preds);
    }
    let ghost t = preds.model();
    let ghost fv = field@;
    let ghost kv = key@;
    let ghost vm = value.value_model();
    let (j, found) = preds.find(field.as_slice());
    if found {
        proof {
            assert forall|i: int| 0 <= i < j implies #[trigger] t[i].0 != fv by {
                lemma_text_lt_irreflexive(fv);
            }
            lemma_get_prefix(t, fv, j as int);
        }
        let mut inner = preds.swap_value(j, Table::new());
        inner.insert(key, value);
        let ghost w = inner.model();
        let _ = preds.swap_value(j, inner);
        proof {
            lemma_insert_prefix(t, fv, w, j as int);
            assert(t.skip(j as int).drop_first() == t.skip(j + 1));
            assert(preds.model() =~= t.take(j as int) + (seq![(fv, w)] + t.skip(j + 1)));
            assert forall|i: int| 0 <= i < preds.model().len() implies keys_sorted(
                #[trigger] preds.model()[i].1,
            ) by {
                if i != j {
                    assert(preds.model()[i] == t[i]);
                }
            }
        }
    } else {
        proof {
            assert forall|i: int| 0 <= i < t.len() implies #[trigger] t[i].0 != fv by {
                lemma_text_lt_irreflexive(fv);
                if i > j {
                    lemma_text_lt_transitive(fv, t[j as int].0, t[i].0);
                }
            }
            lemma_get_absent(t, fv);
        }
        let mut inner: Table<RawValue> = Table::new();
        inner.insert(key, value);
        let ghost w = inner.model();
        preds.insert(field, inner);
        proof {
            lemma_insert_members(t, fv, w);
            assert forall|i: int| 0 <= i < preds.model().len() implies keys_sorted(
                #[trigger] preds.model()[i].1,
            ) by {
                if preds.model()[i] != (fv, w) {
                    let jj = choose|jj: int| 0 <= jj < t.len() && t[jj] == preds.model()[i];
                    assert(keys_sorted(t[jj].1));
                }
            }
        }
    }
}

fn value_error_exec(source: &[char], line: usize, e: ValueError) -> (r: ConfigError)
    ensures
        r@ == value_error(source@, line as nat, e),
{
    let source = string_from_chars(source);
    match e {
        ValueError::Unsupported => ConfigError::UnsupportedValue { source, line },
        ValueError::Str(StringError::NotQuoted) => ConfigError::ExpectedQuotedString {
            source,
            line,
        },
        ValueError::Str(StringError::TrailingEscape) => ConfigError::TrailingEscape {
            source,
            line,
        },
    }
}

/// Applies one line of a command file.
fn apply_line(
    source: &[char],
    raw: &mut RawConfig,
    section: &mut Option<Section>,
    raw_line: &[char],
    line: usize,
) -> (r: Result<(), ConfigError>)
    requires
        old(raw).wf(),
    ensures
        final(raw).wf(),
        match (
            r,
            line_step(
                source@,
                ParseState { raw: old(raw).model(), section: section_model(*old(section)) },
                raw_line@,
                line as nat,
            ),
        ) {
            (Ok(()), Ok(st)) => final(raw).model() == st.raw && section_model(*final(section))
                == st.section,
            (Err(e), Err(se)) => e@ == se,
            _ => false,
        },
{
    let stripped = strip_comment(raw_line);
    let l = trim_chars(stripped.as_slice());
    if l.len() == 0 {
        return Ok(());
    }
    if l[0] == '[' && l[l.len() - 1] == ']' {
        let name = sub_chars(l.as_slice(), 1, l.len() - 1);
        match section_for_chars(name.as_slice()) {
            None => {
                return Err(
                    ConfigError::UnsupportedSection {
                        source: string_from_chars(source),
                        line,
                        name: string_from_chars(name.as_slice()),
                    },
                );
            },
            Some(sec) => {
                *section = Some(sec);
                return Ok(());
            },
        }
    }
    let eq = match find_char_exec(l.as_slice(), '=') {
        None => {
            return Err(
                ConfigError::ExpectedKeyValue { source: string_from_chars(source), line },
            );
        },
        Some(i) => i,
    };
    let key_part = sub_chars(l.as_slice(), 0, eq);
    let key = trim_chars(key_part.as_slice());
    let value_part = sub_chars(l.as_slice(), eq + 1, l.len());
    let value_text = trim_chars(value_part.as_slice());
    assert(key_part@ == l@.take(eq as int));
    assert(value_part@ == l@.skip(eq + 1));
    let value = match parse_value_chars(value_text.as_slice()) {
        Err(e) => {
            return Err(value_error_exec(source, line, e));
        },
        Ok(v) => v,
    };
    match section {
        Some(Section::Metadata) => {
            raw.metadata.insert(key, value);
            Ok(())
        },
        Some(Section::Action) => {
            raw.action.insert(key, value);
            Ok(())
        },
        Some(Section::Match(field)) => {
            let f = sub_chars(field.as_slice(), 0, field.len());
            assert(f@ =~= field@);
            insert_match(&mut raw.predicates, f, key, value);
            Ok(())
        },
        None => Err(ConfigError::KeyOutsideSection { source: string_from_chars(source), line }),
    }
}

/// Reads a command file into its sections.
pub fn parse_file_chars(source_name: &[char], text: &[char]) -> (r: Result<RawConfig, ConfigError>)
    ensures
        match (r, parse_file(source_name@, text@)) {
            (Ok(c), Ok(m)) => c.wf() && c.model() == m,
            (Err(e), Err(me)) => e@ == me,
            _ => false,
        },
{
    let ls = split_lines(text);
    let ghost lsm = texts_model(ls@);
    let mut raw = RawConfig::new();
    let mut section: Option<Section> = None;
    let mut i: usize = 0;
    while i < ls.len()
        invariant
            i <= ls@.len(),
            lsm == texts_model(ls@),
            lsm == lines(text@),
            raw.wf(),
            parse_file(source_name@, text@) == lines_step(
                source_name@,
                lsm,
                i as int,
                ParseState { raw: raw.model(), section: section_model(section) },
            ),
        decreases ls@.len() - i,
    {
        assert(lsm[i as int] == ls@[i as int]@);
        apply_line(source_name, &mut raw, &mut section, ls[i].as_slice(), i + 1)?;
        i = i + 1;
    }
    Ok(raw)
}

} // verus!
