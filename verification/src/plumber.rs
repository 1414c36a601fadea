//! Commands: how they are read from command files, layered into a matcher,
//! and matched against discovered services.
use vstd::prelude::*;

use crate::command_file::{
    parse_file, parse_file_chars, texts_model, EntriesModel, RawConfig, RawModel, RawValue,
    ValueModel,
};
use crate::cli::{clone_strings, strings_view};
use crate::error::{ConfigError, ConfigErrorModel};
use crate::service::{field_value, opt_text, RecordModel, ServiceGroup, ServiceRecord};
use crate::table::{table_get, Table, TableValue};
use crate::text::{
    chars_eq, chars_lt, chars_of, contains_chars, contains_text, lemma_text_lt_asymmetric,
    lemma_text_lt_total, lemma_text_lt_transitive, string_from_chars, text_lt,
};

verus! {

// ---------------------------------------------------------------------------
// Regular expressions (the `regex` crate)
// ---------------------------------------------------------------------------
#[verifier::external_type_specification]
#[verifier::external_body]
pub struct ExRegex(regex::Regex);

#[verifier::external_type_specification]
#[verifier::external_body]
pub struct ExRegexError(regex::Error);

/// Whether `regex::Regex::new` accepts `pattern`.
pub uninterp spec fn regex_compiles(pattern: Seq<char>) -> bool;

/// Whether the regular expression `pattern` matches somewhere in `text`
/// (`regex::Regex::is_match`).
pub uninterp spec fn regex_finds(pattern: Seq<char>, text: Seq<char>) -> bool;

/// `regex::Regex::new`: succeeds exactly when the pattern is one the crate
/// accepts; what it accepts is left to the crate.
#[verifier::external_body]
fn compile_regex(pattern: &str) -> (r: Result<regex::Regex, regex::Error>)
    ensures
        r is Ok <==> regex_compiles(pattern@),
{
    regex::Regex::new(pattern)
}

/// `regex::Regex::is_match` on the expression held by `pattern`. A
/// `RegexPattern` is only ever built by compiling its own `source`, so the
/// answer is the one for that source; which texts match is left to the crate.
#[verifier::external_body]
fn regex_is_match(pattern: &RegexPattern, text: &str) -> (r: bool)
    ensures
        r == regex_finds(pattern.source_text(), text@),
{
    pattern.compiled.is_match(text)
}

/// `Clone::clone` of `regex::Regex`: the copy is the same expression.
#[verifier::external_body]
fn clone_regex(re: &regex::Regex) -> regex::Regex {
    re.clone()
}

/// The `Display` text of a `regex::Error`; its wording is the crate's.
#[verifier::external_body]
fn regex_error_text(e: &regex::Error) -> String {
    format!("{e}")
}

/// A compiled regular expression together with the text it was compiled
/// from.
#[derive(Debug)]
pub struct RegexPattern {
    source: String,
    compiled: regex::Regex,
}

impl RegexPattern {
    pub closed spec fn source_text(&self) -> Seq<char> {
        self.source@
    }

    /// Compiles `pattern`; the error carries the engine's explanation.
    pub fn new(pattern: &str) -> (r: Result<RegexPattern, ConfigError>)
        ensures
            r is Ok <==> regex_compiles(pattern@),
            match r {
                Ok(p) => p.source_text() == pattern@,
                Err(e) => e@ == (ConfigErrorModel::InvalidRegex { pattern: pattern@ }),
            },
    {
        match compile_regex(pattern) {
            Ok(compiled) => Ok(RegexPattern { source: pattern.to_string(), compiled }),
            Err(e) => Err(
                ConfigError::InvalidRegex {
                    pattern: pattern.to_string(),
                    reason: regex_error_text(&e),
                },
            ),
        }
    }

    /// The text the expression was compiled from.
    pub fn as_str(&self) -> (r: &str)
        ensures
            r@ == self.source_text(),
    {
        self.source.as_str()
    }

    /// Whether the expression matches somewhere in `text`.
    pub fn is_match(&self, text: &str) -> (r: bool)
        ensures
            r == regex_finds(self.source_text(), text@),
    {
        regex_is_match(self, text)
    }
}

impl Clone for RegexPattern {
    fn clone(&self) -> (r: Self)
        ensures
            r.source_text() == self.source_text(),
    {
        RegexPattern { source: self.source.clone(), compiled: clone_regex(&self.compiled) }
    }
}

// ---------------------------------------------------------------------------
// Commands
// ---------------------------------------------------------------------------
/// How a command's process is started.
#[derive(Debug, Clone, Copy, PartialEq, Eq, Structural)]
pub enum ActionMode {
    Fork,
    Execute,
}

impl ActionMode {
    /// The name of the mode, as written in command files.
    pub fn label(&self) -> (r: String)
        ensures
            *self == ActionMode::Fork ==> r@ == "fork"@,
            *self == ActionMode::Execute ==> r@ == "execute"@,
    {
        match self {
            ActionMode::Fork => "fork".to_string(),
            ActionMode::Execute => "execute".to_string(),
        }
    }
}

pub struct ActionModel {
    pub description: Option<Seq<char>>,
    pub command: Seq<char>,
    pub mode: ActionMode,
}

/// What running a command does.
#[derive(Debug)]
pub struct CommandAction {
    pub description: Option<String>,
    pub command: String,
    pub mode: ActionMode,
}

impl View for CommandAction {
    type V = ActionModel;

    open spec fn view(&self) -> ActionModel {
        ActionModel {
            description: opt_text(self.description),
            command: self.command@,
            mode: self.mode,
        }
    }
}

impl Clone for CommandAction {
    fn clone(&self) -> (r: Self)
        ensures
            r@ == self@,
    {
        CommandAction {
            description: crate::service::clone_opt_string(&self.description),
            command: self.command.clone(),
            mode: self.mode,
        }
    }
}

pub enum PredicateModel {
    Equals(Seq<char>),
    Contains(Seq<char>),
    Regex(Seq<char>),
}

/// A test on the text of one record field.
#[derive(Debug)]
pub enum Predicate {
    Equals(String),
    Contains(String),
    Regex(RegexPattern),
}

impl View for Predicate {
    type V = PredicateModel;

    open spec fn view(&self) -> PredicateModel {
        match self {
            Predicate::Equals(s) => PredicateModel::Equals(s@),
            Predicate::Contains(s) => PredicateModel::Contains(s@),
            Predicate::Regex(p) => PredicateModel::Regex(p.source_text()),
        }
    }
}

impl Clone for Predicate {
    fn clone(&self) -> (r: Self)
        ensures
            r@ == self@,
    {
        match self {
            Predicate::Equals(s) => Predicate::Equals(s.clone()),
            Predicate::Contains(s) => Predicate::Contains(s.clone()),
            Predicate::Regex(p) => Predicate::Regex(p.clone()),
        }
    }
}

pub struct FieldPredicateModel {
    pub field: Seq<char>,
    pub predicate: PredicateModel,
}

/// A predicate on a named record field.
#[derive(Debug)]
pub struct FieldPredicate {
    pub field: String,
    pub predicate: Predicate,
}

impl View for FieldPredicate {
    type V = FieldPredicateModel;

    open spec fn view(&self) -> FieldPredicateModel {
        FieldPredicateModel { field: self.field@, predicate: self.predicate@ }
    }
}

impl Clone for FieldPredicate {
    fn clone(&self) -> (r: Self)
        ensures
            r@ == self@,
    {
        FieldPredicate { field: self.field.clone(), predicate: self.predicate.clone() }
    }
}

pub struct CommandModel {
    pub name: Seq<char>,
    pub description: Option<Seq<char>>,
    pub requirements: Seq<Seq<char>>,
    pub predicates: Seq<FieldPredicateModel>,
    pub action: ActionModel,
}

/// A command: what it is called, which records it applies to, and what it
/// runs.
#[derive(Debug)]
pub struct CommandConfig {
    pub name: String,
    pub description: Option<String>,
    pub requirements: Vec<String>,
    pub predicates: Vec<FieldPredicate>,
    pub action: CommandAction,
}

pub open spec fn strings_model(v: Seq<String>) -> Seq<Seq<char>> {
    strings_view(v)
}

pub open spec fn predicates_model(v: Seq<FieldPredicate>) -> Seq<FieldPredicateModel> {
    v.map_values(|p: FieldPredicate| p@)
}

impl View for CommandConfig {
    type V = CommandModel;

    open spec fn view(&self) -> CommandModel {
        CommandModel {
            name: self.name@,
            description: opt_text(self.description),
            requirements: strings_model(self.requirements@),
            predicates: predicates_model(self.predicates@),
            action: self.action@,
        }
    }
}

fn clone_predicates(v: &Vec<FieldPredicate>) -> (r: Vec<FieldPredicate>)
    ensures
        predicates_model(r@) == predicates_model(v@),
{
    let mut out: Vec<FieldPredicate> = Vec::new();
    let mut i: usize = 0;
    while i < v.len()
        invariant
            i <= v@.len(),
            predicates_model(out@) == predicates_model(v@).take(i as int),
        decreases v@.len() - i,
    {
        let ghost before = out@;
        out.push(v[i].clone());
        assert(predicates_model(out@) =~= predicates_model(before).push(v@[i as int]@));
        assert(predicates_model(v@).take(i + 1) =~= predicates_model(v@).take(i as int).push(
            v@[i as int]@,
        ));
        i = i + 1;
    }
    assert(predicates_model(v@).take(v@.len() as int) =~= predicates_model(v@));
    out
}

impl Clone for CommandConfig {
    fn clone(&self) -> (r: Self)
        ensures
            r@ == self@,
    {
        CommandConfig {
            name: self.name.clone(),
            description: crate::service::clone_opt_string(&self.description),
            requirements: clone_strings(&self.requirements),
            predicates: clone_predicates(&self.predicates),
            action: self.action.clone(),
        }
    }
}

// ---------------------------------------------------------------------------
// From command file to command
// ---------------------------------------------------------------------------
/// An optional string entry.
pub open spec fn opt_string(t: EntriesModel, key: Seq<char>) -> Result<
    Option<Seq<char>>,
    ConfigErrorModel,
> {
    match table_get(t, key) {
        Some(ValueModel::Text(v)) => Ok(Some(v)),
        Some(ValueModel::List(_)) => Err(ConfigErrorModel::NotAString { key }),
        None => Ok(None),
    }
}

/// A string entry that must be present.
pub open spec fn req_string(t: EntriesModel, key: Seq<char>, source: Seq<char>) -> Result<
    Seq<char>,
    ConfigErrorModel,
> {
    match opt_string(t, key) {
        Err(e) => Err(e),
        Ok(Some(v)) => Ok(v),
        Ok(None) => Err(ConfigErrorModel::MissingKey { source, key }),
    }
}

/// An optional array entry, empty when absent.
pub open spec fn opt_array(t: EntriesModel, key: Seq<char>) -> Result<
    Seq<Seq<char>>,
    ConfigErrorModel,
> {
    match table_get(t, key) {
        Some(ValueModel::List(v)) => Ok(v),
        Some(ValueModel::Text(_)) => Err(ConfigErrorModel::NotAnArray { key }),
        None => Ok(seq![]),
    }
}

/// The mode named in a command file.
pub open spec fn mode_from(source: Seq<char>, m: Seq<char>) -> Result<ActionMode, ConfigErrorModel> {
    if m == "fork"@ {
        Ok(ActionMode::Fork)
    } else if m == "execute"@ || m == "exec"@ {
        Ok(ActionMode::Execute)
    } else {
        Err(ConfigErrorModel::InvalidMode { source, mode: m })
    }
}

/// The predicate that entry `kind = value` of section `[match.field]`
/// describes.
pub open spec fn predicate_from(
    source: Seq<char>,
    field: Seq<char>,
    kind: Seq<char>,
    value: ValueModel,
) -> Result<FieldPredicateModel, ConfigErrorModel> {
    match value {
        ValueModel::List(_) => Err(ConfigErrorModel::PredicateNotString { source, field, kind }),
        ValueModel::Text(v) => if kind == "equals"@ {
            Ok(FieldPredicateModel { field, predicate: PredicateModel::Equals(v) })
        } else if kind == "contains"@ {
            Ok(FieldPredicateModel { field, predicate: PredicateModel::Contains(v) })
        } else if kind == "regex"@ {
            if regex_compiles(v) {
                Ok(FieldPredicateModel { field, predicate: PredicateModel::Regex(v) })
            } else {
                Err(ConfigErrorModel::InvalidRegex { pattern: v })
            }
        } else {
            Err(ConfigErrorModel::UnsupportedPredicate { source, field, kind })
        },
    }
}

/// The predicates of one `[match.field]` section, in key order.
pub open spec fn field_predicates(source: Seq<char>, field: Seq<char>, kinds: EntriesModel) -> Result<
    Seq<FieldPredicateModel>,
    ConfigErrorModel,
>
    decreases kinds.len(),
{
    if kinds.len() == 0 {
        Ok(seq![])
    } else {
        match predicate_from(source, field, kinds[0].0, kinds[0].1) {
            Err(e) => Err(e),
            Ok(p) => match field_predicates(source, field, kinds.drop_first()) {
                Err(e) => Err(e),
                Ok(rest) => Ok(seq![p] + rest),
            },
        }
    }
}

/// The predicates of all `[match.*]` sections, fields in key order.
pub open spec fn all_predicates(source: Seq<char>, fields: Seq<(Seq<char>, EntriesModel)>) -> Result<
    Seq<FieldPredicateModel>,
    ConfigErrorModel,
>
    decreases fields.len(),
{
    if fields.len() == 0 {
        Ok(seq![])
    } else {
        match field_predicates(source, fields[0].0, fields[0].1) {
            Err(e) => Err(e),
            Ok(p) => match all_predicates(source, fields.drop_first()) {
                Err(e) => Err(e),
                Ok(rest) => Ok(p + rest),
            },
        }
    }
}

/// The command that a read command file describes, or the first thing
/// wrong with it.
pub open spec fn command_from(source: Seq<char>, raw: RawModel) -> Result<
    CommandModel,
    ConfigErrorModel,
> {
    match req_string(raw.metadata, "name"@, source) {
        Err(e) => Err(e),
        Ok(name) => match opt_string(raw.metadata, "description"@) {
            Err(e) => Err(e),
            Ok(description) => match opt_array(raw.metadata, "requirements"@) {
                Err(e) => Err(e),
                Ok(requirements) => match opt_string(raw.action, "description"@) {
                    Err(e) => Err(e),
                    Ok(action_description) => match req_string(raw.action, "command"@, source) {
                        Err(e) => Err(e),
                        Ok(command) => match req_string(raw.action, "mode"@, source) {
                            Err(e) => Err(e),
                            Ok(m) => match mode_from(source, m) {
                                Err(e) => Err(e),
                                Ok(mode) => match all_predicates(source, raw.predicates) {
                                    Err(e) => Err(e),
                                    Ok(predicates) => if predicates.len() == 0 {
                                        Err(ConfigErrorModel::NoPredicates { source, name })
                                    } else {
                                        Ok(
                                            CommandModel {
                                                name,
                                                description,
                                                requirements,
                                                predicates,
                                                action: ActionModel {
                                                    description: action_description,
                                                    command,
                                                    mode,
                                                },
                                            },
                                        )
                                    },
                                },
                            },
                        },
                    },
                },
            },
        },
    }
}

/// The command that command file `text` (read from `source`) describes, or
/// the first thing wrong with it.
pub open spec fn command_from_file(source: Seq<char>, text: Seq<char>) -> Result<
    CommandModel,
    ConfigErrorModel,
> {
    match parse_file(source, text) {
        Err(e) => Err(e),
        Ok(raw) => command_from(source, raw),
    }
}

fn optional_string(t: &Table<RawValue>, key: &str) -> (r: Result<Option<String>, ConfigError>)
    ensures
        match (r, opt_string(t.model(), key@)) {
            (Ok(o), Ok(m)) => opt_text(o) == m,
            (Err(e), Err(me)) => e@ == me,
            _ => false,
        },
{
    let k = chars_of(key);
    match t.get(k.as_slice()) {
        Some(RawValue::Text(v)) => Ok(Some(string_from_chars(v.as_slice()))),
        Some(RawValue::List(_)) => Err(ConfigError::NotAString { key: key.to_string() }),
        None => Ok(None),
    }
}

fn required_string(t: &Table<RawValue>, key: &str, source: &[char]) -> (r: Result<
    String,
    ConfigError,
>)
    ensures
        match (r, req_string(t.model(), key@, source@)) {
            (Ok(s), Ok(m)) => s@ == m,
            (Err(e), Err(me)) => e@ == me,
            _ => false,
        },
{
    match optional_string(t, key)? {
        Some(v) => Ok(v),
        None => Err(
            ConfigError::MissingKey { source: string_from_chars(source), key: key.to_string() },
        ),
    }
}

fn strings_from_texts(v: &Vec<Vec<char>>) -> (r: Vec<String>)
    ensures
        strings_model(r@) == texts_model(v@),
{
    let mut out: Vec<String> = Vec::new();
    let mut i: usize = 0;
    while i < v.len()
        invariant
            i <= v@.len(),
            strings_model(out@) == texts_model(v@).take(i as int),
        decreases v@.len() - i,
    {
        let ghost before = out@;
        out.push(string_from_chars(v[i].as_slice()));
        assert(strings_model(out@) =~= strings_model(before).push(v@[i as int]@));
        assert(texts_model(v@).take(i + 1) =~= texts_model(v@).take(i as int).push(
            v@[i as int]@,
        ));
        i = i + 1;
    }
    assert(texts_model(v@).take(v@.len() as int) =~= texts_model(v@));
    out
}

fn optional_array(t: &Table<RawValue>, key: &str) -> (r: Result<Vec<String>, ConfigError>)
    ensures
        match (r, opt_array(t.model(), key@)) {
            (Ok(v), Ok(m)) => strings_model(v@) == m,
            (Err(e), Err(me)) => e@ == me,
            _ => false,
        },
{
    let k = chars_of(key);
    match t.get(k.as_slice()) {
        Some(RawValue::List(v)) => Ok(strings_from_texts(v)),
        Some(RawValue::Text(_)) => Err(ConfigError::NotAnArray { key: key.to_string() }),
        None => {
            let empty: Vec<String> = Vec::new();
            assert(strings_model(empty@) =~= seq![]);
            Ok(empty)
        },
    }
}

fn mode_from_string(source: &[char], m: &String) -> (r: Result<ActionMode, ConfigError>)
    ensures
        match (r, mode_from(source@, m@)) {
            (Ok(a), Ok(b)) => a == b,
            (Err(e), Err(me)) => e@ == me,
            _ => false,
        },
{
    let mc = chars_of(m.as_str());
    if chars_eq(mc.as_slice(), chars_of("fork").as_slice()) {
        Ok(ActionMode::Fork)
    } else if chars_eq(mc.as_slice(), chars_of("execute").as_slice()) || chars_eq(
        mc.as_slice(),
        chars_of("exec").as_slice(),
    ) {
        Ok(ActionMode::Execute)
    } else {
        Err(ConfigError::InvalidMode { source: string_from_chars(source), mode: m.clone() })
    }
}

fn predicate_from_entry(source: &[char], field: &[char], kind: &[char], value: &RawValue) -> (r:
    Result<FieldPredicate, ConfigError>)
    ensures
        match (r, predicate_from(source@, field@, kind@, value.value_model())) {
            (Ok(p), Ok(m)) => p@ == m,
            (Err(e), Err(me)) => e@ == me,
            _ => false,
        },
{
    let v = match value {
        RawValue::List(_) => {
            return Err(
                ConfigError::PredicateNotString {
                    source: string_from_chars(source),
                    field: string_from_chars(field),
                    kind: string_from_chars(kind),
                },
            );
        },
        RawValue::Text(v) => string_from_chars(v.as_slice()),
    };
    let predicate = if chars_eq(kind, chars_of("equals").as_slice()) {
        Predicate::Equals(v)
    } else if chars_eq(kind, chars_of("contains").as_slice()) {
        Predicate::Contains(v)
    } else if chars_eq(kind, chars_of("regex").as_slice()) {
        Predicate::Regex(RegexPattern::new(v.as_str())?)
    } else {
        return Err(
            ConfigError::UnsupportedPredicate {
                source: string_from_chars(source),
                field: string_from_chars(field),
                kind: string_from_chars(kind),
            },
        );
    };
    Ok(FieldPredicate { field: string_from_chars(field), predicate })
}

pub open spec fn preds_prepend(p: Seq<FieldPredicateModel>, r: Result<Seq<FieldPredicateModel>, ConfigErrorModel>) -> Result<
    Seq<FieldPredicateModel>,
    ConfigErrorModel,
> {
    match r {
        Ok(x) => Ok(p + x),
        Err(e) => Err(e),
    }
}

/// Appends the predicates of one `[match.field]` section.
fn push_field_predicates(
    source: &[char],
    field: &[char],
    kinds: &Table<RawValue>,
    out: &mut Vec<FieldPredicate>,
) -> (r: Result<(), ConfigError>)
    ensures
        match (r, field_predicates(source@, field@, kinds.model())) {
            (Ok(()), Ok(ps)) => predicates_model(final(out)@) == predicates_model(old(out)@) + ps,
            (Err(e), Err(me)) => e@ == me,
            _ => false,
        },
{
    let ghost all = kinds.model();
    let ghost out0 = predicates_model(out@);
    let mut i: usize = 0;
    assert(all.skip(0) == all);
    assert(preds_prepend(seq![], field_predicates(source@, field@, all)) =~= field_predicates(
        source@,
        field@,
        all,
    )) by {
        match field_predicates(source@, field@, all) {
            Ok(x) => {
                assert(Seq::<FieldPredicateModel>::empty() + x =~= x);
            },
            Err(e) => {},
        }
    }
    assert(predicates_model(out@) =~= out0 + seq![]);
    while i < kinds.len()
        invariant
            i <= all.len(),
            all == kinds.model(),
            exists|done: Seq<FieldPredicateModel>|
                {
                    &&& predicates_model(out@) == out0 + done
                    &&& field_predicates(source@, field@, all) == preds_prepend(
                        done,
                        field_predicates(source@, field@, all.skip(i as int)),
                    )
                },
        decreases all.len() - i,
    {
        let ghost done = choose|done: Seq<FieldPredicateModel>|
            {
                &&& predicates_model(out@) == out0 + done
                &&& field_predicates(source@, field@, all) == preds_prepend(
                    done,
                    field_predicates(source@, field@, all.skip(i as int)),
                )
            };
        let ghost rest = all.skip(i as int);
        let (kind, value) = kinds.entry(i);
        assert(rest[0] == all[i as int]);
        let p = predicate_from_entry(source, field, kind.as_slice(), value)?;
        let ghost pm = p@;
        let ghost before = out@;
        out.push(p);
        proof {
            assert(rest.drop_first() == all.skip(i + 1));
            assert(predicates_model(out@) =~= predicates_model(before).push(pm));
            assert(predicates_model(out@) =~= out0 + (done + seq![pm]));
            match field_predicates(source@, field@, all.skip(i + 1)) {
                Ok(x) => {
                    assert(done + (seq![pm] + x) =~= (done + seq![pm]) + x);
                },
                Err(e) => {},
            }
        }
        i = i + 1;
    }
    proof {
        let done = choose|done: Seq<FieldPredicateModel>|
            {
                &&& predicates_model(out@) == out0 + done
                &&& field_predicates(source@, field@, all) == preds_prepend(
                    done,
                    field_predicates(source@, field@, all.skip(i as int)),
                )
            };
        assert(all.skip(i as int).len() == 0);
        assert(done + seq![] =~= done);
    }
    Ok(())
}

/// Builds the predicates of all `[match.*]` sections.
fn collect_predicates(source: &[char], fields: &Table<Table<RawValue>>) -> (r: Result<
    Vec<FieldPredicate>,
    ConfigError,
>)
    ensures
        match (r, all_predicates(source@, fields.model())) {
            (Ok(v), Ok(ps)) => predicates_model(v@) == ps,
            (Err(e), Err(me)) => e@ == me,
            _ => false,
        },
{
    let ghost all = fields.model();
    let mut out: Vec<FieldPredicate> = Vec::new();
    let mut i: usize = 0;
    assert(all.skip(0) == all);
    assert(preds_prepend(predicates_model(out@), all_predicates(source@, all)) =~= all_predicates(
        source@,
        all,
    )) by {
        match all_predicates(source@, all) {
            Ok(x) => {
                assert(predicates_model(out@) + x =~= x);
            },
            Err(e) => {},
        }
    }
    while i < fields.len()
        invariant
            i <= all.len(),
            all == fields.model(),
            all_predicates(source@, all) == preds_prepend(
                predicates_model(out@),
                all_predicates(source@, all.skip(i as int)),
            ),
        decreases all.len() - i,
    {
        let ghost rest = all.skip(i as int);
        let ghost before = predicates_model(out@);
        let (field, kinds) = fields.entry(i);
        assert(rest[0] == all[i as int]);
        push_field_predicates(source, field.as_slice(), kinds, &mut out)?;
        proof {
            assert(rest.drop_first() == all.skip(i + 1));
            let ps = field_predicates(source@, rest[0].0, rest[0].1)->Ok_0;
            match all_predicates(source@, all.skip(i + 1)) {
                Ok(x) => {
                    assert(before + (ps + x) =~= (before + ps) + x);
                },
                Err(e) => {},
            }
        }
        i = i + 1;
    }
    proof {
        assert(all.skip(i as int).len() == 0);
        assert(predicates_model(out@) + seq![] =~= predicates_model(out@));
    }
    Ok(out)
}

fn command_from_raw(source: &[char], raw: &RawConfig) -> (r: Result<CommandConfig, ConfigError>)
    ensures
        match (r, command_from(source@, raw.model())) {
            (Ok(c), Ok(m)) => c@ == m,
            (Err(e), Err(me)) => e@ == me,
            _ => false,
        },
{
    let name = required_string(&raw.metadata, "name", source)?;
    let description = optional_string(&raw.metadata, "description")?;
    let requirements = optional_array(&raw.metadata, "requirements")?;
    let action_description = optional_string(&raw.action, "description")?;
    let command = required_string(&raw.action, "command", source)?;
    let mode_text = required_string(&raw.action, "mode", source)?;
    let mode = mode_from_string(source, &mode_text)?;
    let predicates = collect_predicates(source, &raw.predicates)?;
    if predicates.len() == 0 {
        return Err(ConfigError::NoPredicates { source: string_from_chars(source), name });
    }
    Ok(
        CommandConfig {
            name,
            description,
            requirements,
            predicates,
            action: CommandAction { description: action_description, command, mode },
        },
    )
}

/// Reads one command from command-file text; `source_name` names the text
/// in error messages.
pub fn parse_command_config(source_name: &str, source: &str) -> (r: Result<
    CommandConfig,
    ConfigError,
>)
    ensures
        match (r, command_from_file(source_name@, source@)) {
            (Ok(c), Ok(m)) => c@ == m,
            (Err(e), Err(me)) => e@ == me,
            _ => false,
        },
{
    let src = chars_of(source_name);
    let text = chars_of(source);
    let raw = parse_file_chars(src.as_slice(), text.as_slice())?;
    command_from_raw(src.as_slice(), &raw)
}


// ---------------------------------------------------------------------------
// Matching commands against services
// ---------------------------------------------------------------------------
/// Fields whose value differs between the instances of one service.
pub open spec fn instance_field(field: Seq<char>) -> bool {
    field == "address"@ || field == "port"@
}

/// A command line that names the address or port of one instance.
pub open spec fn template_is_instance_specific(command: Seq<char>) -> bool {
    contains_text(command, "{address}"@) || contains_text(command, "{port}"@)
}

/// Whether a command must be run on one chosen instance.
pub open spec fn command_needs_instance(c: CommandModel) -> bool {
    ||| exists|i: int|
        0 <= i < c.predicates.len() && instance_field(#[trigger] c.predicates[i].field)
    ||| template_is_instance_specific(c.action.command)
}

/// Whether a record passes one predicate (a missing field fails it).
pub open spec fn predicate_holds(p: FieldPredicateModel, r: RecordModel) -> bool {
    match field_value(r, p.field) {
        None => false,
        Some(v) => match p.predicate {
            PredicateModel::Equals(e) => v == e,
            PredicateModel::Contains(e) => contains_text(v, e),
            PredicateModel::Regex(pattern) => regex_finds(pattern, v),
        },
    }
}

/// Whether a record passes every predicate of a command.
pub open spec fn record_matches(c: CommandModel, r: RecordModel) -> bool {
    forall|i: int| 0 <= i < c.predicates.len() ==> predicate_holds(#[trigger] c.predicates[i], r)
}

/// The records that a command applies to, in their order.
pub open spec fn matching_records(c: CommandModel, rs: Seq<RecordModel>) -> Seq<RecordModel>
    decreases rs.len(),
{
    if rs.len() == 0 {
        seq![]
    } else {
        matching_records(c, rs.drop_last()) + if record_matches(c, rs.last()) {
            seq![rs.last()]
        } else {
            seq![]
        }
    }
}

pub struct MatchModel {
    pub command: CommandModel,
    pub records: Seq<RecordModel>,
    pub needs_instance: bool,
}

/// What a command offers for a group of records, if it applies to any.
pub open spec fn match_for(c: CommandModel, rs: Seq<RecordModel>) -> Option<MatchModel> {
    let records = matching_records(c, rs);
    if records.len() == 0 {
        None
    } else {
        Some(
            MatchModel {
                command: c,
                records,
                needs_instance: command_needs_instance(c) || (records.len() > 1
                    && template_is_instance_specific(c.action.command)),
            },
        )
    }
}

/// The offers of all commands for a group of records, in command order.
pub open spec fn group_matches(cs: Seq<CommandModel>, rs: Seq<RecordModel>) -> Seq<MatchModel>
    decreases cs.len(),
{
    if cs.len() == 0 {
        seq![]
    } else {
        group_matches(cs.drop_last(), rs) + match match_for(cs.last(), rs) {
            Some(m) => seq![m],
            None => seq![],
        }
    }
}

pub open spec fn records_model(v: Seq<ServiceRecord>) -> Seq<RecordModel> {
    v.map_values(|r: ServiceRecord| r@)
}

/// A command that applies to a group, with the records it applies to.
#[derive(Debug)]
pub struct MatchResult {
    pub command: CommandConfig,
    pub matching_records: Vec<ServiceRecord>,
    pub needs_instance: bool,
}

impl View for MatchResult {
    type V = MatchModel;

    open spec fn view(&self) -> MatchModel {
        MatchModel {
            command: self.command@,
            records: records_model(self.matching_records@),
            needs_instance: self.needs_instance,
        }
    }
}

pub open spec fn matches_model(v: Seq<MatchResult>) -> Seq<MatchModel> {
    v.map_values(|m: MatchResult| m@)
}

pub open spec fn commands_model(v: Seq<CommandConfig>) -> Seq<CommandModel> {
    v.map_values(|c: CommandConfig| c@)
}

/// No two commands share a name.
pub open spec fn names_unique(cs: Seq<CommandModel>) -> bool {
    forall|i: int, j: int| 0 <= i < j < cs.len() ==> #[trigger] cs[i].name != #[trigger] cs[j].name
}

impl FieldPredicate {
    /// Whether `record` passes the predicate.
    pub fn matches(&self, record: &ServiceRecord) -> (r: bool)
        ensures
            r == predicate_holds(self@, record@),
    {
        let value = match record.field(self.field.as_str()) {
            None => return false,
            Some(v) => v,
        };
        match &self.predicate {
            Predicate::Equals(expected) => value == *expected,
            Predicate::Contains(expected) => {
                let hay = chars_of(value.as_str());
                let needle = chars_of(expected.as_str());
                contains_chars(hay.as_slice(), needle.as_slice())
            },
            Predicate::Regex(pattern) => pattern.is_match(value.as_str()),
        }
    }
}

impl CommandConfig {
    /// Whether `record` passes every predicate.
    pub fn matches_record(&self, record: &ServiceRecord) -> (r: bool)
        ensures
            r == record_matches(self@, record@),
    {
        let mut i: usize = 0;
        while i < self.predicates.len()
            invariant
                i <= self.predicates@.len(),
                forall|j: int|
                    0 <= j < i ==> predicate_holds(#[trigger] self@.predicates[j], record@),
            decreases self.predicates@.len() - i,
        {
            if !self.predicates[i].matches(record) {
                assert(!predicate_holds(self@.predicates[i as int], record@));
                return false;
            }
            i = i + 1;
        }
        true
    }

    /// Whether the command line names the address or port of one instance.
    pub fn has_instance_specific_template(&self) -> (r: bool)
        ensures
            r == template_is_instance_specific(self@.action.command),
    {
        let command = chars_of(self.action.command.as_str());
        contains_chars(command.as_slice(), chars_of("{address}").as_slice()) || contains_chars(
            command.as_slice(),
            chars_of("{port}").as_slice(),
        )
    }

    /// Whether the command must be run on one chosen instance: a predicate
    /// reads an address or port, or the command line names one.
    pub fn needs_instance(&self) -> (r: bool)
        ensures
            r == command_needs_instance(self@),
    {
        let mut i: usize = 0;
        while i < self.predicates.len()
            invariant
                i <= self.predicates@.len(),
                forall|j: int|
                    0 <= j < i ==> !instance_field(#[trigger] self@.predicates[j].field),
            decreases self.predicates@.len() - i,
        {
            if is_instance_field(self.predicates[i].field.as_str()) {
                assert(instance_field(self@.predicates[i as int].field));
                return true;
            }
            i = i + 1;
        }
        self.has_instance_specific_template()
    }
}

/// Whether a field's value differs between the instances of one service.
pub fn is_instance_field(field: &str) -> (r: bool)
    ensures
        r == instance_field(field@),
{
    let f = chars_of(field);
    chars_eq(f.as_slice(), chars_of("address").as_slice()) || chars_eq(
        f.as_slice(),
        chars_of("port").as_slice(),
    )
}

/// The commands loaded from command files.
#[derive(Debug)]
pub struct Matcher {
    commands: Vec<CommandConfig>,
}

impl View for Matcher {
    type V = Seq<CommandModel>;

    closed spec fn view(&self) -> Seq<CommandModel> {
        commands_model(self.commands@)
    }
}

impl Matcher {
    /// Command names stay distinct.
    #[verifier::type_invariant]
    closed spec fn inv(&self) -> bool {
        names_unique(commands_model(self.commands@))
    }

    /// A matcher without commands.
    pub fn new() -> (m: Self)
        ensures
            m@ == Seq::<CommandModel>::empty(),
    {
        let m = Matcher { commands: Vec::new() };
        assert(m@ =~= Seq::<CommandModel>::empty());
        m
    }

    /// The commands that apply to some record of `group`, in command order,
    /// each with the records it applies to and whether one of them must be
    /// chosen.
    pub fn matches_group(&self, group: &ServiceGroup) -> (r: Vec<MatchResult>)
        ensures
            matches_model(r@) == group_matches(self@, records_model(group.instances@)),
    {
        let ghost rs = records_model(group.instances@);
        let mut out: Vec<MatchResult> = Vec::new();
        let mut i: usize = 0;
        assert(matches_model(out@) =~= group_matches(self@.take(0), rs));
        while i < self.commands.len()
            invariant
                i <= self.commands@.len(),
                rs == records_model(group.instances@),
                matches_model(out@) == group_matches(self@.take(i as int), rs),
            decreases self.commands@.len() - i,
        {
            let command = &self.commands[i];
            let mut records: Vec<ServiceRecord> = Vec::new();
            let mut k: usize = 0;
            assert(records_model(records@) =~= matching_records(command@, rs.take(0)));
            while k < group.instances.len()
                invariant
                    k <= group.instances@.len(),
                    rs == records_model(group.instances@),
                    records_model(records@) == matching_records(command@, rs.take(k as int)),
                decreases group.instances@.len() - k,
            {
                let ghost before = records_model(records@);
                assert(rs.take(k + 1).drop_last() == rs.take(k as int));
                if command.matches_record(&group.instances[k]) {
                    records.push(group.instances[k].clone());
                    assert(records_model(records@) =~= before + seq![rs[k as int]]);
                } else {
                    assert(records_model(records@) =~= before + seq![]);
                }
                k = k + 1;
            }
            assert(rs.take(k as int) == rs);
            let ghost before = matches_model(out@);
            proof {
                assert(self@.take(i + 1).drop_last() == self@.take(i as int));
                assert(self@.take(i + 1).last() == command@);
            }
            if records.len() > 0 {
                let needs_instance = command.needs_instance() || (records.len() > 1
                    && command.has_instance_specific_template());
                out.push(
                    MatchResult { command: command.clone(), matching_records: records, needs_instance },
                );
                assert(matches_model(out@) =~= group_matches(self@.take(i + 1), rs));
            } else {
                assert(matches_model(out@) =~= group_matches(self@.take(i + 1), rs));
            }
            i = i + 1;
        }
        assert(self@.take(i as int) == self@);
        out
    }

    /// How many commands are loaded.
    pub fn command_count(&self) -> (n: usize)
        ensures
            n == self@.len(),
    {
        self.commands.len()
    }

    /// The loaded commands, in load order; no two share a name.
    pub fn commands(&self) -> (r: &[CommandConfig])
        ensures
            commands_model(r@) == self@,
            names_unique(self@),
    {
        proof {
            use_type_invariant(self);
        }
        self.commands.as_slice()
    }
}

impl Default for Matcher {
    fn default() -> (m: Self)
        ensures
            m@ == Seq::<CommandModel>::empty(),
    {
        Matcher::new()
    }
}


// ---------------------------------------------------------------------------
// Building a matcher from layered command files
// ---------------------------------------------------------------------------
/// The position of the command named `name`, or `-1`.
pub open spec fn name_index(cs: Seq<CommandModel>, name: Seq<char>) -> int
    decreases cs.len(),
{
    if cs.len() == 0 {
        -1
    } else if cs.last().name == name {
        cs.len() - 1
    } else {
        name_index(cs.drop_last(), name)
    }
}

pub proof fn lemma_name_index(cs: Seq<CommandModel>, name: Seq<char>)
    ensures
        -1 <= name_index(cs, name) < cs.len(),
        name_index(cs, name) >= 0 ==> cs[name_index(cs, name)].name == name,
        name_index(cs, name) == -1 ==> forall|i: int|
            0 <= i < cs.len() ==> #[trigger] cs[i].name != name,
    decreases cs.len(),
{
    if cs.len() > 0 && cs.last().name != name {
        lemma_name_index(cs.drop_last(), name);
        assert forall|i: int| 0 <= i < cs.len() - 1 implies cs[i] == cs.drop_last()[i] by {}
    }
}

/// A matcher under construction: its commands, the layer in which each was
/// last defined, and the current layer.
pub struct BuilderModel {
    pub commands: Seq<CommandModel>,
    pub layers: Seq<usize>,
    pub layer: usize,
}

/// Adding a command: a name already defined in the current layer is
/// refused; a name from an earlier layer is overridden in place; a new name
/// goes at the end.
pub open spec fn builder_add(b: BuilderModel, cmd: CommandModel, source: Seq<char>) -> Result<
    BuilderModel,
    ConfigErrorModel,
> {
    let i = name_index(b.commands, cmd.name);
    if i >= 0 && b.layers[i] == b.layer {
        Err(ConfigErrorModel::DuplicateCommand { source, name: cmd.name })
    } else if i >= 0 {
        Ok(
            BuilderModel {
                commands: b.commands.update(i, cmd),
                layers: b.layers.update(i, b.layer),
                layer: b.layer,
            },
        )
    } else {
        Ok(
            BuilderModel {
                commands: b.commands.push(cmd),
                layers: b.layers.push(b.layer),
                layer: b.layer,
            },
        )
    }
}

/// Adding the command of command-file text `text` (read from `source`).
pub open spec fn builder_add_source(b: BuilderModel, source: Seq<char>, text: Seq<char>) -> Result<
    BuilderModel,
    ConfigErrorModel,
> {
    match command_from_file(source, text) {
        Err(e) => Err(e),
        Ok(cmd) => builder_add(b, cmd, source),
    }
}

/// What every builder state satisfies.
pub open spec fn builder_wf(b: BuilderModel) -> bool {
    &&& b.commands.len() == b.layers.len()
    &&& names_unique(b.commands)
    &&& forall|i: int| 0 <= i < b.layers.len() ==> #[trigger] b.layers[i] <= b.layer
}

/// Collects commands from layered command files into a [`Matcher`].
#[derive(Debug)]
pub struct MatcherBuilder {
    commands: Vec<CommandConfig>,
    layers: Vec<usize>,
    layer: usize,
}

impl View for MatcherBuilder {
    type V = BuilderModel;

    closed spec fn view(&self) -> BuilderModel {
        BuilderModel {
            commands: commands_model(self.commands@),
            layers: self.layers@,
            layer: self.layer,
        }
    }
}

impl MatcherBuilder {
    #[verifier::type_invariant]
    closed spec fn inv(&self) -> bool {
        builder_wf(self@)
    }

    /// An empty builder in layer zero.
    pub fn new() -> (b: Self)
        ensures
            b@.commands == Seq::<CommandModel>::empty(),
            b@.layers == Seq::<usize>::empty(),
            b@.layer == 0,
    {
        let b = MatcherBuilder { commands: Vec::new(), layers: Vec::new(), layer: 0 };
        assert(b@.commands =~= Seq::<CommandModel>::empty());
        b
    }

    /// Begins a new override layer. Commands added afterwards override
    /// same-named commands from earlier layers; duplicates within one layer
    /// remain errors.
    pub fn start_layer(&mut self)
        requires
            old(self)@.layer < usize::MAX,
        ensures
            final(self)@ == (BuilderModel { layer: (old(self)@.layer + 1) as usize, ..old(self)@ }),
    {
        proof {
            use_type_invariant(&*self);
        }
        let mut taken = MatcherBuilder { commands: Vec::new(), layers: Vec::new(), layer: 0 };
        assert(taken@.commands =~= Seq::<CommandModel>::empty());
        std::mem::swap(&mut taken, self);
        proof {
            use_type_invariant(&taken);
        }
        let MatcherBuilder { commands, layers, layer } = taken;
        let mut rebuilt = MatcherBuilder { commands, layers, layer: layer + 1 };
        std::mem::swap(&mut rebuilt, self);
    }

    /// The current layer.
    pub fn layer(&self) -> (n: usize)
        ensures
            n == self@.layer,
    {
        self.layer
    }

    /// The position of the command named `name`.
    fn index_of(&self, name: &String) -> (r: Option<usize>)
        ensures
            match r {
                Some(i) => i as int == name_index(self@.commands, name@),
                None => name_index(self@.commands, name@) == -1,
            },
    {
        let mut i = self.commands.len();
        assert(self@.commands.take(i as int) == self@.commands);
        while i > 0
            invariant
                i <= self.commands@.len(),
                name_index(self@.commands, name@) == name_index(self@.commands.take(i as int), name@),
            decreases i,
        {
            assert(self@.commands.take(i as int).last() == self.commands@[i - 1]@);
            assert(self@.commands.take(i as int).drop_last() == self@.commands.take(i - 1));
            if self.commands[i - 1].name == *name {
                return Some(i - 1);
            }
            i = i - 1;
        }
        None
    }

    /// Adds the command described by command-file text `source`;
    /// `source_name` names the text in error messages. On an error the
    /// builder is unchanged.
    pub fn add_str(&mut self, source_name: &str, source: &str) -> (r: Result<(), ConfigError>)
        ensures
            match (r, builder_add_source(old(self)@, source_name@, source@)) {
                (Ok(()), Ok(b)) => final(self)@ == b,
                (Err(e), Err(me)) => e@ == me && final(self)@ == old(self)@,
                _ => false,
            },
    {
        proof {
            use_type_invariant(&*self);
        }
        let command = parse_command_config(source_name, source)?;
        let ghost cm = command@;
        let found = self.index_of(&command.name);
        proof {
            lemma_name_index(self@.commands, cm.name);
        }
        match found {
            Some(i) => {
                if self.layers[i] == self.layer {
                    return Err(
                        ConfigError::DuplicateCommand {
                            source: source_name.to_string(),
                            name: command.name,
                        },
                    );
                }
            },
            None => {},
        }
        let mut taken = MatcherBuilder { commands: Vec::new(), layers: Vec::new(), layer: 0 };
        assert(taken@.commands =~= Seq::<CommandModel>::empty());
        std::mem::swap(&mut taken, self);
        proof {
            use_type_invariant(&taken);
        }
        let ghost b0 = taken@;
        let MatcherBuilder { mut commands, mut layers, layer } = taken;
        match found {
            Some(i) => {
                commands.set(i, command);
                layers.set(i, layer);
                proof {
                    assert(commands_model(commands@) =~= b0.commands.update(i as int, cm));
                    assert forall|a: int, b: int|
                        0 <= a < b < commands_model(commands@).len() implies #[trigger] commands_model(
                        commands@,
                    )[a].name != #[trigger] commands_model(commands@)[b].name by {
                        assert(commands_model(commands@)[a].name == b0.commands[a].name);
                        assert(commands_model(commands@)[b].name == b0.commands[b].name);
                    }
                }
            },
            None => {
                commands.push(command);
                layers.push(layer);
                proof {
                    assert(commands_model(commands@) =~= b0.commands.push(cm));
                    assert forall|a: int, b: int|
                        0 <= a < b < commands_model(commands@).len() implies #[trigger] commands_model(
                        commands@,
                    )[a].name != #[trigger] commands_model(commands@)[b].name by {
                        if b == b0.commands.len() {
                            assert(commands_model(commands@)[a] == b0.commands[a]);
                        } else {
                            assert(commands_model(commands@)[a] == b0.commands[a]);
                            assert(commands_model(commands@)[b] == b0.commands[b]);
                        }
                    }
                }
            },
        }
        let mut rebuilt = MatcherBuilder { commands, layers, layer };
        std::mem::swap(&mut rebuilt, self);
        Ok(())
    }

    /// The matcher holding the collected commands, in the order their names
    /// were first added.
    pub fn build(self) -> (m: Matcher)
        ensures
            m@ == self@.commands,
            names_unique(m@),
    {
        proof {
            use_type_invariant(&self);
        }
        let MatcherBuilder { commands, layers, layer } = self;
        Matcher { commands }
    }
}

impl Default for MatcherBuilder {
    fn default() -> (b: Self)
        ensures
            b@.commands == Seq::<CommandModel>::empty(),
            b@.layers == Seq::<usize>::empty(),
            b@.layer == 0,
    {
        MatcherBuilder::new()
    }
}


// ---------------------------------------------------------------------------
// Where command files are found
// ---------------------------------------------------------------------------
/// System-wide command directory, loaded as the base layer for every run.
pub const SYSTEM_CONFIG_DIR: &'static str = "/etc/avahi-tui/commands";

/// `base` with the relative component `part` appended (`PathBuf::push`).
pub open spec fn join_path(base: Seq<char>, part: Seq<char>) -> Seq<char> {
    if base.len() == 0 {
        part
    } else if base.last() == '/' {
        base + part
    } else {
        base + "/"@ + part
    }
}

fn join_path_exec(base: &[char], part: &str) -> (r: Vec<char>)
    ensures
        r@ == join_path(base@, part@),
{
    let p = chars_of(part);
    if base.len() == 0 {
        return p;
    }
    let mut out = crate::text::sub_chars(base, 0, base.len());
    assert(out@ =~= base@);
    if base[base.len() - 1] != '/' {
        out.push('/');
    }
    crate::text::append_chars(&mut out, p.as_slice());
    proof {
        reveal_strlit("/");
        if base@.last() != '/' {
            assert(out@ =~= base@ + "/"@ + part@);
        }
    }
    out
}

/// The user-local command directory, if a configuration home is known:
/// `$XDG_CONFIG_HOME/avahi-tui/commands`, else `$HOME/.config/avahi-tui/commands`.
pub open spec fn user_config_dir(xdg_config_home: Option<Seq<char>>, home: Option<Seq<char>>) -> Option<
    Seq<char>,
> {
    match xdg_config_home {
        Some(x) => Some(join_path(join_path(x, "avahi-tui"@), "commands"@)),
        None => match home {
            Some(h) => Some(
                join_path(join_path(join_path(h, ".config"@), "avahi-tui"@), "commands"@),
            ),
            None => None,
        },
    }
}

pub open spec fn opt_seq(o: Option<Seq<char>>) -> Seq<Seq<char>> {
    match o {
        Some(x) => seq![x],
        None => seq![],
    }
}

/// Ordered list of command directories, lowest precedence first: the
/// system-wide one, the user-local one (from the values of
/// `XDG_CONFIG_HOME` and `HOME`), then the extra ones in the order given.
/// Commands in a later directory override same-named commands from an
/// earlier one.
pub fn config_dirs(xdg_config_home: Option<&str>, home: Option<&str>, extra: &[String]) -> (r: Vec<
    String,
>)
    ensures
        strings_model(r@) == seq![SYSTEM_CONFIG_DIR@] + opt_seq(
            user_config_dir(
                crate::discovery::opt_str_text(xdg_config_home),
                crate::discovery::opt_str_text(home),
            ),
        ) + strings_model(extra@),
{
    let mut dirs: Vec<String> = Vec::new();
    dirs.push(SYSTEM_CONFIG_DIR.to_string());
    let user = match xdg_config_home {
        Some(x) => {
            let a = join_path_exec(chars_of(x).as_slice(), "avahi-tui");
            let b = join_path_exec(a.as_slice(), "commands");
            Some(string_from_chars(b.as_slice()))
        },
        None => match home {
            Some(h) => {
                let a = join_path_exec(chars_of(h).as_slice(), ".config");
                let b = join_path_exec(a.as_slice(), "avahi-tui");
                let c = join_path_exec(b.as_slice(), "commands");
                Some(string_from_chars(c.as_slice()))
            },
            None => None,
        },
    };
    match user {
        Some(u) => dirs.push(u),
        None => {},
    }
    let ghost base = strings_model(dirs@);
    assert(base =~= seq![SYSTEM_CONFIG_DIR@] + opt_seq(
        user_config_dir(
            crate::discovery::opt_str_text(xdg_config_home),
            crate::discovery::opt_str_text(home),
        ),
    ));
    let mut i: usize = 0;
    while i < extra.len()
        invariant
            i <= extra@.len(),
            strings_model(dirs@) == base + strings_model(extra@).take(i as int),
        decreases extra@.len() - i,
    {
        let ghost before = dirs@;
        dirs.push(extra[i].clone());
        assert(strings_model(dirs@) =~= strings_model(before).push(extra@[i as int]@));
        assert(strings_model(extra@).take(i + 1) =~= strings_model(extra@).take(i as int).push(
            extra@[i as int]@,
        ));
        i = i + 1;
    }
    assert(strings_model(extra@).take(i as int) =~= strings_model(extra@));
    dirs
}

/// A file name with the extension `toml` (`Path::extension`): it ends in
/// `.toml` and that dot is not its first character.
pub open spec fn is_command_file_name(name: Seq<char>) -> bool {
    name.len() > 5 && ".toml"@.is_suffix_of(name)
}

/// Ascending text order, repeats allowed.
pub open spec fn texts_ascending(s: Seq<Seq<char>>) -> bool {
    forall|i: int, j: int| 0 <= i < j < s.len() ==> !text_lt(#[trigger] s[j], #[trigger] s[i])
}

fn is_command_file(name: &String) -> (r: bool)
    ensures
        r == is_command_file_name(name@),
{
    let n = chars_of(name.as_str());
    if n.len() <= 5 {
        return false;
    }
    let tail = crate::text::sub_chars(n.as_slice(), n.len() - 5, n.len());
    proof {
        reveal_strlit(".toml");
    }
    let r = chars_eq(tail.as_slice(), chars_of(".toml").as_slice());
    assert(r == ".toml"@.is_suffix_of(n@)) by {
        if ".toml"@.is_suffix_of(n@) {
            assert(tail@ =~= ".toml"@);
        }
        if r {
            assert forall|i: int| 0 <= i < 5 implies ".toml"@[i] == n@[n@.len() - 5 + i] by {
                assert(tail@[i] == n@[n@.len() - 5 + i]);
            }
        }
    }
    r
}

/// The command files among the entries of one directory, in the order they
/// are loaded: by name, ascending.
pub fn command_files(names: &[String]) -> (r: Vec<String>)
    ensures
        strings_model(r@).to_multiset() == strings_model(names@).filter(
            |n: Seq<char>| is_command_file_name(n),
        ).to_multiset(),
        texts_ascending(strings_model(r@)),
{
    let ghost keep = |n: Seq<char>| is_command_file_name(n);
    let ghost all = strings_model(names@);
    let mut out: Vec<String> = Vec::new();
    let mut i: usize = 0;
    assert(strings_model(out@) =~= all.take(0).filter(keep));
    while i < names.len()
        invariant
            i <= names@.len(),
            all == strings_model(names@),
            keep == (|n: Seq<char>| is_command_file_name(n)),
            strings_model(out@).to_multiset() == all.take(i as int).filter(keep).to_multiset(),
            texts_ascending(strings_model(out@)),
        decreases names@.len() - i,
    {
        assert(all.take(i + 1).drop_last() == all.take(i as int));
        reveal_with_fuel(Seq::filter, 1);
        if is_command_file(&names[i]) {
            let name = names[i].clone();
            let ghost nv = name@;
            insert_sorted(&mut out, name);
            proof {
                assert(all.take(i + 1).filter(keep) == all.take(i as int).filter(keep).push(nv));
                all.take(i as int).filter(keep).to_multiset_ensures();
            }
        }
        i = i + 1;
    }
    assert(all.take(i as int) == all);
    out
}

/// Inserts `name` after every text not greater than it.
fn insert_sorted(v: &mut Vec<String>, name: String)
    requires
        texts_ascending(strings_model(old(v)@)),
    ensures
        texts_ascending(strings_model(final(v)@)),
        strings_model(final(v)@).to_multiset() == strings_model(old(v)@).to_multiset().insert(
            name@,
        ),
{
    let ghost s0 = strings_model(v@);
    let nc = chars_of(name.as_str());
    let mut j: usize = v.len();
    while j > 0 && chars_lt(nc.as_slice(), chars_of(v[j - 1].as_str()).as_slice())
        invariant
            j <= v@.len(),
            s0 == strings_model(v@),
            nc@ == name@,
            forall|k: int| j <= k < s0.len() ==> text_lt(name@, #[trigger] s0[k]),
        decreases j,
    {
        j = j - 1;
    }
    let ghost nv = name@;
    v.insert(j, name);
    proof {
        assert(strings_model(v@) =~= s0.insert(j as int, nv));
        s0.insert_ensures(j as int, nv);
        assert(s0.insert(j as int, nv).to_multiset() =~= s0.to_multiset().insert(nv)) by {
            s0.to_multiset_ensures();
            s0.insert(j as int, nv).to_multiset_ensures();
            assert(s0.insert(j as int, nv) =~= s0.take(j as int).push(nv) + s0.skip(j as int));
            vstd::seq_lib::lemma_multiset_commutative(s0.take(j as int).push(nv), s0.skip(j as int));
            vstd::seq_lib::lemma_multiset_commutative(s0.take(j as int), s0.skip(j as int));
            assert(s0 =~= s0.take(j as int) + s0.skip(j as int));
            s0.take(j as int).to_multiset_ensures();
        }
        let s1 = strings_model(v@);
        assert forall|a: int, b: int| 0 <= a < b < s1.len() implies !text_lt(
            #[trigger] s1[b],
            #[trigger] s1[a],
        ) by {
            if a < j && b == j {
                if j > 0 {
                    lemma_text_lt_total(nv, s0[j - 1]);
                    if text_lt(nv, s0[a]) {
                        if a < j - 1 {
                            lemma_text_lt_total(s0[a], s0[j - 1]);
                            if text_lt(s0[a], s0[j - 1]) {
                                lemma_text_lt_transitive(nv, s0[a], s0[j - 1]);
                            } else if s0[a] != s0[j - 1] {
                                lemma_text_lt_asymmetric(s0[j - 1], s0[a]);
                            }
                        }
                        lemma_text_lt_asymmetric(nv, s0[a]);
                    }
                }
            } else if a == j && b > j {
                lemma_text_lt_asymmetric(nv, s0[b - 1]);
            } else if a < j && b > j {
                assert(s1[a] == s0[a]);
                assert(s1[b] == s0[b - 1]);
            } else {
                assert(s1[a] == s0[a] || a > j);
            }
        }
    }
}

} // verus!
