//! The command line, once its arguments have been read.
use vstd::prelude::*;

use crate::service::opt_text;
use crate::text::{append_chars, chars_eq, chars_of, string_from_chars};

verus! {

/// What the program was asked to do.
#[derive(Debug, Clone, Copy, PartialEq, Eq, Structural)]
pub enum CliCommand {
    Run,
    ListCommands,
}

/// The settings taken from the command line.
#[derive(Debug)]
pub struct Cli {
    pub domain: String,
    pub config_dirs: Vec<String>,
    pub service_type: Option<String>,
    pub fake_discovery: bool,
    pub command: CliCommand,
}

/// The settings as seen by specifications.
pub struct CliModel {
    pub domain: Seq<char>,
    pub config_dirs: Seq<Seq<char>>,
    pub service_type: Option<Seq<char>>,
    pub fake_discovery: bool,
    pub command: CliCommand,
}

impl View for Cli {
    type V = CliModel;

    open spec fn view(&self) -> CliModel {
        CliModel {
            domain: self.domain@,
            config_dirs: strings_view(self.config_dirs@),
            service_type: opt_text(self.service_type),
            fake_discovery: self.fake_discovery,
            command: self.command,
        }
    }
}

/// A command line that names a subcommand this program does not have.
#[derive(Debug)]
pub struct UnknownSubcommand {
    pub name: String,
}

impl UnknownSubcommand {
    /// The error text shown to the user.
    pub fn message(&self) -> (r: String)
        ensures
            r@ == "unknown subcommand `"@ + self.name@
                + "`; use `list-commands` to see available commands\n"@,
    {
        let mut out = chars_of("unknown subcommand `");
        let n = chars_of(self.name.as_str());
        append_chars(&mut out, n.as_slice());
        let tail = chars_of("`; use `list-commands` to see available commands\n");
        append_chars(&mut out, tail.as_slice());
        string_from_chars(out.as_slice())
    }
}

pub open spec fn strings_view(v: Seq<String>) -> Seq<Seq<char>> {
    v.map_values(|s: String| s@)
}

/// A copy of `v`.
pub fn clone_strings(v: &Vec<String>) -> (r: Vec<String>)
    ensures
        strings_view(r@) == strings_view(v@),
{
    let mut out: Vec<String> = Vec::new();
    let mut i: usize = 0;
    while i < v.len()
        invariant
            i <= v@.len(),
            strings_view(out@) == strings_view(v@).take(i as int),
        decreases v@.len() - i,
    {
        let ghost before = out@;
        out.push(v[i].clone());
        assert(strings_view(out@) =~= strings_view(before).push(v@[i as int]@));
        assert(strings_view(v@).take(i + 1) =~= strings_view(v@).take(i as int).push(
            v@[i as int]@,
        ));
        i = i + 1;
    }
    assert(strings_view(v@).take(i as int) =~= strings_view(v@));
    out
}

/// The settings for the arguments that were read: the `--domain` value (if
/// given), the `--service-type` value, the `--fake-discovery` flag, the
/// subcommand (if any), and the `--config-dir` values given before and after
/// it. A plain run takes the top-level directories, `list-commands` its own;
/// any other subcommand is refused. The domain defaults to `local`.
pub fn cli_from_args(
    domain: Option<String>,
    service_type: Option<String>,
    fake_discovery: bool,
    subcommand: Option<String>,
    top_level_dirs: Vec<String>,
    subcommand_dirs: Vec<String>,
) -> (r: Result<Cli, UnknownSubcommand>)
    ensures
        match subcommand {
            None => r matches Ok(c) && c.command == CliCommand::Run && strings_view(
                c.config_dirs@,
            ) == strings_view(top_level_dirs@),
            Some(s) => if s@ == "list-commands"@ {
                r matches Ok(c) && c.command == CliCommand::ListCommands && strings_view(
                    c.config_dirs@,
                ) == strings_view(subcommand_dirs@)
            } else {
                r matches Err(e) && e.name@ == s@
            },
        },
        r matches Ok(c) ==> {
            &&& c.domain@ == match domain {
                Some(d) => d@,
                None => "local"@,
            }
            &&& c.service_type == service_type
            &&& c.fake_discovery == fake_discovery
        },
{
    let (command, config_dirs) = match subcommand {
        None => (CliCommand::Run, top_level_dirs),
        Some(s) => {
            let sc = chars_of(s.as_str());
            if chars_eq(sc.as_slice(), chars_of("list-commands").as_slice()) {
                (CliCommand::ListCommands, subcommand_dirs)
            } else {
                return Err(UnknownSubcommand { name: s });
            }
        },
    };
    let domain = match domain {
        Some(d) => d,
        None => "local".to_string(),
    };
    Ok(Cli { domain, config_dirs, service_type, fake_discovery, command })
}

// ---------------------------------------------------------------------------
// Reading the command line with clap
// ---------------------------------------------------------------------------
#[verifier::external_type_specification]
#[verifier::external_body]
pub struct ExClapCommand(clap::Command);

#[verifier::external_type_specification]
#[verifier::external_body]
pub struct ExClapArg(clap::Arg);

/// How an option takes its values.
#[derive(Debug, Clone, Copy, PartialEq, Eq, Structural)]
pub enum ArgKind {
    /// One value; a later occurrence replaces an earlier one.
    Single,
    /// Every occurrence adds a value.
    Repeated,
    /// No value: present or absent.
    Flag,
}

/// One option of a command line.
#[derive(Debug)]
pub struct ArgDef {
    pub id: &'static str,
    pub long: &'static str,
    pub short: Option<char>,
    pub help: &'static str,
    pub value_name: Option<&'static str>,
    pub default_value: Option<&'static str>,
    pub kind: ArgKind,
}

pub struct ArgDefModel {
    pub id: Seq<char>,
    pub long: Seq<char>,
    pub short: Option<char>,
    pub help: Seq<char>,
    pub value_name: Option<Seq<char>>,
    pub default_value: Option<Seq<char>>,
    pub kind: ArgKind,
}

pub open spec fn opt_str_view(o: Option<&'static str>) -> Option<Seq<char>> {
    match o {
        Some(s) => Some(s@),
        None => None,
    }
}

impl View for ArgDef {
    type V = ArgDefModel;

    open spec fn view(&self) -> ArgDefModel {
        ArgDefModel {
            id: self.id@,
            long: self.long@,
            short: self.short,
            help: self.help@,
            value_name: opt_str_view(self.value_name),
            default_value: opt_str_view(self.default_value),
            kind: self.kind,
        }
    }
}

pub open spec fn arg_defs_view(v: Seq<ArgDef>) -> Seq<ArgDefModel> {
    v.map_values(|a: ArgDef| a@)
}

/// A subcommand and its options.
#[derive(Debug)]
pub struct SubcommandDef {
    pub name: &'static str,
    pub about: &'static str,
    pub args: Vec<ArgDef>,
}

pub struct SubcommandDefModel {
    pub name: Seq<char>,
    pub about: Seq<char>,
    pub args: Seq<ArgDefModel>,
}

impl View for SubcommandDef {
    type V = SubcommandDefModel;

    open spec fn view(&self) -> SubcommandDefModel {
        SubcommandDefModel { name: self.name@, about: self.about@, args: arg_defs_view(self.args@) }
    }
}

/// A program's command line: its name, description, options and
/// subcommands.
#[derive(Debug)]
pub struct CommandDef {
    pub name: &'static str,
    pub about: &'static str,
    pub args: Vec<ArgDef>,
    pub subcommands: Vec<SubcommandDef>,
}

pub struct CommandDefModel {
    pub name: Seq<char>,
    pub about: Seq<char>,
    pub args: Seq<ArgDefModel>,
    pub subcommands: Seq<SubcommandDefModel>,
}

impl View for CommandDef {
    type V = CommandDefModel;

    open spec fn view(&self) -> CommandDefModel {
        CommandDefModel {
            name: self.name@,
            about: self.about@,
            args: arg_defs_view(self.args@),
            subcommands: self.subcommands@.map_values(|s: SubcommandDef| s@),
        }
    }
}

/// An option clap accepts beside the `-h`/`--help` option it adds to every
/// command: a non-empty id and long name, the long name not starting with
/// `-`, neither of them `help`, and a short name (if any) other than `-` and
/// `h`.
pub open spec fn arg_well_formed(a: ArgDefModel) -> bool {
    &&& a.id.len() > 0
    &&& a.long.len() > 0
    &&& a.long[0] != '-'
    &&& a.id != "help"@
    &&& a.long != "help"@
    &&& a.short != Some('-')
    &&& a.short != Some('h')
}

/// Options that clap accepts side by side: each well formed, with distinct
/// ids, long names and short names.
pub open spec fn args_well_formed(args: Seq<ArgDefModel>) -> bool {
    &&& forall|i: int| 0 <= i < args.len() ==> arg_well_formed(#[trigger] args[i])
    &&& forall|i: int, j: int|
        0 <= i < j < args.len() ==> {
            &&& #[trigger] args[i].id != #[trigger] args[j].id
            &&& args[i].long != args[j].long
            &&& (args[i].short is Some ==> args[i].short != args[j].short)
        }
}

/// A definition clap's consistency checks accept: well-formed options in
/// the command and in every subcommand, and subcommand names that are
/// non-empty, distinct, and not `help` (clap adds a `help` subcommand to a
/// command that has subcommands).
pub open spec fn def_well_formed(d: CommandDefModel) -> bool {
    &&& args_well_formed(d.args)
    &&& forall|k: int| 0 <= k < d.subcommands.len() ==> args_well_formed(#[trigger] d.subcommands[k].args)
    &&& forall|k: int|
        0 <= k < d.subcommands.len() ==> #[trigger] d.subcommands[k].name.len() > 0
            && d.subcommands[k].name != "help"@
    &&& forall|k: int, l: int|
        0 <= k < l < d.subcommands.len() ==> #[trigger] d.subcommands[k].name
            != #[trigger] d.subcommands[l].name
}

/// What clap found on a command line: for each option of the command, in
/// definition order, its values as given (or its default); the name of the
/// subcommand given, if any; and for each subcommand, in definition order,
/// the values of its options when it was the one given.
#[derive(Debug)]
pub struct MatchedArgs {
    pub values: Vec<Vec<String>>,
    pub subcommand: Option<String>,
    pub subcommand_values: Vec<Option<Vec<Vec<String>>>>,
}

pub struct MatchedModel {
    pub values: Seq<Seq<Seq<char>>>,
    pub subcommand: Option<Seq<char>>,
    pub subcommand_values: Seq<Option<Seq<Seq<Seq<char>>>>>,
}

pub open spec fn values_view(v: Seq<Vec<String>>) -> Seq<Seq<Seq<char>>> {
    v.map_values(|x: Vec<String>| strings_view(x@))
}

pub open spec fn opt_values_view(o: Option<Vec<Vec<String>>>) -> Option<Seq<Seq<Seq<char>>>> {
    match o {
        Some(v) => Some(values_view(v@)),
        None => None,
    }
}

impl View for MatchedArgs {
    type V = MatchedModel;

    open spec fn view(&self) -> MatchedModel {
        MatchedModel {
            values: values_view(self.values@),
            subcommand: opt_text(self.subcommand),
            subcommand_values: self.subcommand_values@.map_values(
                |o: Option<Vec<Vec<String>>>| opt_values_view(o),
            ),
        }
    }
}

/// What clap's `Command::try_get_matches_from` finds in the arguments
/// `args` (the program name first) for a command defined by `def`: `None`
/// when it refuses them or answers with help or version text.
pub uninterp spec fn clap_args(def: CommandDefModel, args: Seq<Seq<char>>) -> Option<MatchedModel>;

/// `clap::Command::new`.
#[verifier::external_body]
fn clap_command(name: &'static str) -> clap::Command {
    clap::Command::new(name)
}

/// `clap::Command::about`.
#[verifier::external_body]
fn command_about(c: clap::Command, about: &'static str) -> clap::Command {
    c.about(about)
}

/// `clap::Command::arg`.
#[verifier::external_body]
fn command_arg(c: clap::Command, a: clap::Arg) -> clap::Command {
    c.arg(a)
}

/// `clap::Command::subcommand`.
#[verifier::external_body]
fn command_subcommand(c: clap::Command, sub: clap::Command) -> clap::Command {
    c.subcommand(sub)
}

/// `clap::Arg::new`.
#[verifier::external_body]
fn clap_arg(id: &'static str) -> clap::Arg {
    clap::Arg::new(id)
}

/// `clap::Arg::long`.
#[verifier::external_body]
fn arg_long(a: clap::Arg, long: &'static str) -> clap::Arg {
    a.long(long)
}

/// `clap::Arg::short`, which asserts that the name is not `-`.
#[verifier::external_body]
fn arg_short(a: clap::Arg, short: char) -> clap::Arg
    requires
        short != '-',
{
    a.short(short)
}

/// `clap::Arg::help`.
#[verifier::external_body]
fn arg_help(a: clap::Arg, help: &'static str) -> clap::Arg {
    a.help(help)
}

/// `clap::Arg::value_name`.
#[verifier::external_body]
fn arg_value_name(a: clap::Arg, name: &'static str) -> clap::Arg {
    a.value_name(name)
}

/// `clap::Arg::default_value`.
#[verifier::external_body]
fn arg_default_value(a: clap::Arg, value: &'static str) -> clap::Arg {
    a.default_value(value)
}

/// `clap::Arg::action`, with `ArgAction::Append`.
#[verifier::external_body]
fn arg_repeated(a: clap::Arg) -> clap::Arg {
    a.action(clap::ArgAction::Append)
}

/// `clap::Arg::action`, with `ArgAction::SetTrue`.
#[verifier::external_body]
fn arg_flag(a: clap::Arg) -> clap::Arg {
    a.action(clap::ArgAction::SetTrue)
}

/// The clap form of one option.
fn build_arg(d: &ArgDef) -> clap::Arg
    requires
        d.short != Some('-'),
{
    let mut a = clap_arg(d.id);
    a = arg_long(a, d.long);
    if let Some(c) = d.short {
        a = arg_short(a, c);
    }
    a = arg_help(a, d.help);
    if let Some(v) = d.value_name {
        a = arg_value_name(a, v);
    }
    if let Some(v) = d.default_value {
        a = arg_default_value(a, v);
    }
    match d.kind {
        ArgKind::Single => a,
        ArgKind::Repeated => arg_repeated(a),
        ArgKind::Flag => arg_flag(a),
    }
}

/// A clap command with the given options.
fn build_command(name: &'static str, about: &'static str, args: &Vec<ArgDef>) -> clap::Command
    requires
        args_well_formed(arg_defs_view(args@)),
{
    let mut c = clap_command(name);
    c = command_about(c, about);
    let mut i: usize = 0;
    while i < args.len()
        invariant
            i <= args@.len(),
            args_well_formed(arg_defs_view(args@)),
        decreases args@.len() - i,
    {
        assert(arg_defs_view(args@)[i as int] == args@[i as int]@);
        assert(arg_well_formed(arg_defs_view(args@)[i as int]));
        c = command_arg(c, build_arg(&args[i]));
        i = i + 1;
    }
    c
}

/// A command-line definition handed to clap. It is only ever built by
/// [`CliParser::new`], which gives clap exactly the options and subcommands
/// of `def`.
pub struct CliParser {
    def: CommandDef,
    command: clap::Command,
}

impl CliParser {
    /// Only definitions clap accepts are handed to it.
    #[verifier::type_invariant]
    closed spec fn inv(&self) -> bool {
        def_well_formed(self.def@)
    }

    /// The definition clap was given.
    pub closed spec fn definition(&self) -> CommandDefModel {
        self.def@
    }

    /// Hands the definition `def` to clap.
    pub fn new(def: CommandDef) -> (p: Self)
        requires
            def_well_formed(def@),
        ensures
            p.definition() == def@,
    {
        let mut c = build_command(def.name, def.about, &def.args);
        let mut k: usize = 0;
        while k < def.subcommands.len()
            invariant
                k <= def.subcommands@.len(),
                def_well_formed(def@),
            decreases def.subcommands@.len() - k,
        {
            let s = &def.subcommands[k];
            assert(def@.subcommands[k as int] == s@);
            assert(args_well_formed(def@.subcommands[k as int].args));
            c = command_subcommand(c, build_command(s.name, s.about, &s.args));
            k = k + 1;
        }
        CliParser { def, command: c }
    }
}

/// Why clap did not hand back matches: its message (usage errors, or the
/// help or version text asked for), the exit code it would leave with, and
/// whether the message belongs on standard error.
#[derive(Debug)]
pub struct ClapStop {
    pub message: String,
    pub exit_code: i32,
    pub to_stderr: bool,
}

/// `clap::Command::try_get_matches_from` on `parser`'s command (a refusal
/// converted to a [`ClapStop`] with `Error::to_string`, `exit_code` and
/// `use_stderr`), the values
/// of each defined option then read with `ArgMatches::get_raw` (text that is
/// not UTF-8 replaced lossily), the subcommand's name with
/// `subcommand_name`, and each subcommand's values with
/// `subcommand_matches`. Only the definitions' own ids and names are asked
/// for, which is what `get_raw` and `subcommand_matches` demand, and the
/// definition is one that clap's debug consistency checks, run when the
/// command is built, accept ([`def_well_formed`]). Which
/// arguments clap accepts, and how, is left to clap.
#[verifier::external_body]
fn match_args(parser: CliParser, args: &[String]) -> (r: Result<MatchedArgs, ClapStop>)
    requires
        def_well_formed(parser.definition()),
    ensures
        match clap_args(parser.definition(), strings_view(args@)) {
            None => r is Err,
            Some(m) => r matches Ok(v) && v@ == m,
        },
{
    let m = parser.command.try_get_matches_from(args).map_err(|e| ClapStop { message: e.to_string(), exit_code: e.exit_code(), to_stderr: e.use_stderr() })?;
    let raw = |m: &clap::ArgMatches, ds: &[ArgDef]| ds.iter().map(|d| m.get_raw(d.id).into_iter().flatten().map(|v| v.to_string_lossy().into()).collect()).collect();
    Ok(MatchedArgs {
        values: raw(&m, &parser.def.args),
        subcommand: m.subcommand_name().map(String::from),
        subcommand_values: parser.def.subcommands.iter().map(|s| m.subcommand_matches(s.name).map(|sm| raw(sm, &s.args))).collect(),
    })
}

// ---------------------------------------------------------------------------
// This program's command line
// ---------------------------------------------------------------------------
/// Positions of the options in [`cli_definition`].
pub const DOMAIN_ARG: usize = 0;
pub const CONFIG_DIR_ARG: usize = 1;
pub const SERVICE_TYPE_ARG: usize = 2;
pub const FAKE_DISCOVERY_ARG: usize = 3;

/// Position of `list-commands` among the subcommands, and of its
/// `--config-dir` among its options.
pub const LIST_COMMANDS_SUB: usize = 0;
pub const LIST_COMMANDS_DIR_ARG: usize = 0;

/// The command line of this program.
pub open spec fn cli_definition_model() -> CommandDefModel {
    CommandDefModel {
        name: "avahi-tui"@,
        about: "TUI browser and launcher for DNS-SD services"@,
        args: seq![
            ArgDefModel {
                id: "domain"@,
                long: "domain"@,
                short: Some('d'),
                help: "DNS-SD domain to browse"@,
                value_name: Some("DOMAIN"@),
                default_value: Some("local"@),
                kind: ArgKind::Single,
            },
            ArgDefModel {
                id: "config-dir"@,
                long: "config-dir"@,
                short: None,
                help: "Extra command directory; repeatable, each overlays the previous"@,
                value_name: Some("PATH"@),
                default_value: None,
                kind: ArgKind::Repeated,
            },
            ArgDefModel {
                id: "service-type"@,
                long: "service-type"@,
                short: None,
                help: "Limit discovery to one DNS-SD service type"@,
                value_name: Some("TYPE"@),
                default_value: None,
                kind: ArgKind::Single,
            },
            ArgDefModel {
                id: "fake-discovery"@,
                long: "fake-discovery"@,
                short: None,
                help: "Use built-in sample records instead of mDNS discovery"@,
                value_name: None,
                default_value: None,
                kind: ArgKind::Flag,
            },
        ],
        subcommands: seq![
            SubcommandDefModel {
                name: "list-commands"@,
                about: "Validate and list registered command configs"@,
                args: seq![
                    ArgDefModel {
                        id: "config-dir"@,
                        long: "config-dir"@,
                        short: None,
                        help: "Command config directory to load"@,
                        value_name: Some("PATH"@),
                        default_value: None,
                        kind: ArgKind::Repeated,
                    },
                ],
            },
        ],
    }
}

/// This program's command line is one clap accepts.
pub proof fn lemma_cli_definition_well_formed()
    ensures
        def_well_formed(cli_definition_model()),
{
    reveal_strlit("domain");
    reveal_strlit("config-dir");
    reveal_strlit("service-type");
    reveal_strlit("fake-discovery");
    reveal_strlit("help");
    reveal_strlit("list-commands");
    let d = cli_definition_model();
    let a = d.args;
    assert forall|i: int| 0 <= i < a.len() implies arg_well_formed(#[trigger] a[i]) by {
        assert(a[i].long == a[i].id);
        assert(a[i].id.len() != 4);
    }
    assert(arg_well_formed(d.subcommands[0].args[0]));
    assert(a[0].id.len() == 6 && a[1].id.len() == 10 && a[2].id.len() == 12 && a[3].id.len() == 14);
    assert forall|i: int, j: int| 0 <= i < j < a.len() implies {
        &&& a[i].id != a[j].id
        &&& a[i].long != a[j].long
        &&& (a[i].short is Some ==> a[i].short != a[j].short)
    } by {
        assert(a[i].id.len() != a[j].id.len());
        assert(a[i].long == a[i].id && a[j].long == a[j].id);
    }
    assert(args_well_formed(a));
    assert(args_well_formed(d.subcommands[0].args));
}

/// The definition of this program's command line.
pub fn cli_definition() -> (d: CommandDef)
    ensures
        d@ == cli_definition_model(),
{
    let mut args: Vec<ArgDef> = Vec::new();
    args.push(
        ArgDef {
            id: "domain",
            long: "domain",
            short: Some('d'),
            help: "DNS-SD domain to browse",
            value_name: Some("DOMAIN"),
            default_value: Some("local"),
            kind: ArgKind::Single,
        },
    );
    args.push(
        ArgDef {
            id: "config-dir",
            long: "config-dir",
            short: None,
            help: "Extra command directory; repeatable, each overlays the previous",
            value_name: Some("PATH"),
            default_value: None,
            kind: ArgKind::Repeated,
        },
    );
    args.push(
        ArgDef {
            id: "service-type",
            long: "service-type",
            short: None,
            help: "Limit discovery to one DNS-SD service type",
            value_name: Some("TYPE"),
            default_value: None,
            kind: ArgKind::Single,
        },
    );
    args.push(
        ArgDef {
            id: "fake-discovery",
            long: "fake-discovery",
            short: None,
            help: "Use built-in sample records instead of mDNS discovery",
            value_name: None,
            default_value: None,
            kind: ArgKind::Flag,
        },
    );
    let mut sub_args: Vec<ArgDef> = Vec::new();
    sub_args.push(
        ArgDef {
            id: "config-dir",
            long: "config-dir",
            short: None,
            help: "Command config directory to load",
            value_name: Some("PATH"),
            default_value: None,
            kind: ArgKind::Repeated,
        },
    );
    let mut subcommands: Vec<SubcommandDef> = Vec::new();
    subcommands.push(
        SubcommandDef {
            name: "list-commands",
            about: "Validate and list registered command configs",
            args: sub_args,
        },
    );
    let d = CommandDef {
        name: "avahi-tui",
        about: "TUI browser and launcher for DNS-SD services",
        args,
        subcommands,
    };
    assert(d@.args =~= cli_definition_model().args);
    assert(d@.subcommands[0].args =~= cli_definition_model().subcommands[0].args);
    assert(d@.subcommands =~= cli_definition_model().subcommands);
    d
}

/// The first value of option `i`, if it has one.
pub open spec fn first_of(vs: Seq<Seq<Seq<char>>>, i: int) -> Option<Seq<char>> {
    if 0 <= i < vs.len() && vs[i].len() > 0 {
        Some(vs[i][0])
    } else {
        None
    }
}

/// All values of option `i`.
pub open spec fn all_of(vs: Seq<Seq<Seq<char>>>, i: int) -> Seq<Seq<char>> {
    if 0 <= i < vs.len() {
        vs[i]
    } else {
        seq![]
    }
}

/// The `--config-dir` values given to `list-commands`.
pub open spec fn list_commands_dirs(m: MatchedModel) -> Seq<Seq<char>> {
    if LIST_COMMANDS_SUB < m.subcommand_values.len() {
        match m.subcommand_values[LIST_COMMANDS_SUB as int] {
            Some(vs) => all_of(vs, LIST_COMMANDS_DIR_ARG as int),
            None => seq![],
        }
    } else {
        seq![]
    }
}

/// The settings that clap's matches for [`cli_definition`] stand for, or the
/// name of an unknown subcommand: the domain (`local` when none is given),
/// the directories (the top-level ones for a plain run, those given to
/// `list-commands` for that subcommand), the service type, and whether the
/// `--fake-discovery` flag is set.
pub open spec fn cli_of(m: MatchedModel) -> Result<CliModel, Seq<char>> {
    let domain = match first_of(m.values, DOMAIN_ARG as int) {
        Some(d) => d,
        None => "local"@,
    };
    let service_type = first_of(m.values, SERVICE_TYPE_ARG as int);
    let fake_discovery = first_of(m.values, FAKE_DISCOVERY_ARG as int) == Some("true"@);
    match m.subcommand {
        None => Ok(
            CliModel {
                domain,
                config_dirs: all_of(m.values, CONFIG_DIR_ARG as int),
                service_type,
                fake_discovery,
                command: CliCommand::Run,
            },
        ),
        Some(s) => if s == "list-commands"@ {
            Ok(
                CliModel {
                    domain,
                    config_dirs: list_commands_dirs(m),
                    service_type,
                    fake_discovery,
                    command: CliCommand::ListCommands,
                },
            )
        } else {
            Err(s)
        },
    }
}

fn first_value(vs: &Vec<Vec<String>>, i: usize) -> (r: Option<String>)
    ensures
        opt_text(r) == first_of(values_view(vs@), i as int),
{
    if i < vs.len() && vs[i].len() > 0 {
        Some(vs[i][0].clone())
    } else {
        None
    }
}

fn all_values(vs: &Vec<Vec<String>>, i: usize) -> (r: Vec<String>)
    ensures
        strings_view(r@) == all_of(values_view(vs@), i as int),
{
    if i < vs.len() {
        clone_strings(&vs[i])
    } else {
        let empty: Vec<String> = Vec::new();
        assert(strings_view(empty@) =~= seq![]);
        empty
    }
}

/// Why the command line gave no settings.
#[derive(Debug)]
pub enum ArgsError {
    /// clap refused the arguments, or answered with help or version text.
    Stopped(ClapStop),
    /// A subcommand this program does not have.
    UnknownSubcommand(UnknownSubcommand),
}

/// Reads this program's command line `args` (the program name first) with
/// clap and [`cli_definition`]: the settings [`cli_of`] gives for what clap
/// found; clap's own answer when it stops; an unknown subcommand refused.
pub fn parse_args(args: &[String]) -> (r: Result<Cli, ArgsError>)
    ensures
        match clap_args(cli_definition_model(), strings_view(args@)) {
            None => r matches Err(ArgsError::Stopped(_)),
            Some(m) => match (r, cli_of(m)) {
                (Ok(c), Ok(cm)) => c@ == cm,
                (Err(ArgsError::UnknownSubcommand(u)), Err(name)) => u.name@ == name,
                _ => false,
            },
        },
{
    let def = cli_definition();
    proof {
        lemma_cli_definition_well_formed();
    }
    let parser = CliParser::new(def);
    proof {
        use_type_invariant(&parser);
    }
    let m = match match_args(parser, args) {
        Ok(m) => m,
        Err(stop) => return Err(ArgsError::Stopped(stop)),
    };
    let domain = first_value(&m.values, DOMAIN_ARG);
    let service_type = first_value(&m.values, SERVICE_TYPE_ARG);
    let fake_discovery = match first_value(&m.values, FAKE_DISCOVERY_ARG) {
        Some(v) => {
            let vc = chars_of(v.as_str());
            chars_eq(vc.as_slice(), chars_of("true").as_slice())
        },
        None => false,
    };
    let top_level_dirs = all_values(&m.values, CONFIG_DIR_ARG);
    let subcommand_dirs = if LIST_COMMANDS_SUB < m.subcommand_values.len() {
        match &m.subcommand_values[LIST_COMMANDS_SUB] {
            Some(vs) => all_values(vs, LIST_COMMANDS_DIR_ARG),
            None => {
                let empty: Vec<String> = Vec::new();
                assert(strings_view(empty@) =~= seq![]);
                empty
            },
        }
    } else {
        let empty: Vec<String> = Vec::new();
        assert(strings_view(empty@) =~= seq![]);
        empty
    };
    let subcommand = match &m.subcommand {
        Some(s) => Some(s.clone()),
        None => None,
    };
    match cli_from_args(
        domain,
        service_type,
        fake_discovery,
        subcommand,
        top_level_dirs,
        subcommand_dirs,
    ) {
        Ok(c) => Ok(c),
        Err(u) => Err(ArgsError::UnknownSubcommand(u)),
    }
}

} // verus!
