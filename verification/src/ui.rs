//! Text shown by the terminal interface.
use vstd::prelude::*;

use crate::cli::strings_view;
use crate::plumber::{MatchModel, MatchResult};
use crate::service::{port_text, RecordModel, ServiceRecord};
use crate::table::Table;
use crate::text::{append_chars, chars_of, decimal, decimal_chars, push_str, string_from_chars};

verus! {

/// A known value, or `<pending>`.
pub open spec fn or_pending(o: Option<Seq<char>>) -> Seq<char> {
    match o {
        Some(s) => s,
        None => "<pending>"@,
    }
}

/// `"{name} {type} host={host} addr={address} port={port}"`, unknown values
/// shown as `<pending>`.
pub open spec fn instance_text(r: RecordModel) -> Seq<char> {
    r.name + " "@ + r.service_type + " host="@ + or_pending(r.hostname) + " addr="@ + or_pending(
        r.address,
    ) + " port="@ + or_pending(port_text(r.port))
}

fn push_or_pending(out: &mut Vec<char>, o: &Option<String>)
    ensures
        final(out)@ == old(out)@ + or_pending(crate::service::opt_text(*o)),
{
    match o {
        Some(s) => push_str(out, s.as_str()),
        None => push_str(out, "<pending>"),
    }
}

/// One line describing a record instance.
pub fn instance_line(record: &ServiceRecord) -> (r: String)
    ensures
        r@ == instance_text(record@),
{
    let mut out: Vec<char> = Vec::new();
    let name = record.display_name();
    push_str(&mut out, name.as_str());
    push_str(&mut out, " ");
    push_str(&mut out, record.service_type.as_str());
    push_str(&mut out, " host=");
    push_or_pending(&mut out, &record.hostname);
    push_str(&mut out, " addr=");
    push_or_pending(&mut out, &record.address);
    push_str(&mut out, " port=");
    match record.port {
        Some(p) => {
            let d = decimal_chars(p as u64);
            append_chars(&mut out, d.as_slice());
        },
        None => push_str(&mut out, "<pending>"),
    }
    assert(out@ =~= instance_text(record@));
    string_from_chars(out.as_slice())
}

/// What the screen is showing or waiting for.
#[derive(Debug, Clone, Copy, PartialEq, Eq, Structural)]
pub enum AppMode {
    Browse,
    Search,
    TypeFilter,
    Grouping,
    ActionPicker,
    InstancePicker,
    Help,
}

/// The name of a mode in the header.
pub open spec fn mode_label(m: AppMode) -> Seq<char> {
    match m {
        AppMode::Search => "search"@,
        AppMode::Browse => "browse"@,
        AppMode::TypeFilter => "type filter"@,
        AppMode::Grouping => "grouping"@,
        AppMode::ActionPicker => "actions"@,
        AppMode::InstancePicker => "instances"@,
        AppMode::Help => "help"@,
    }
}

impl AppMode {
    /// The name of this mode in the header.
    pub fn label(&self) -> (r: String)
        ensures
            r@ == mode_label(*self),
    {
        let s = match self {
            AppMode::Search => "search",
            AppMode::Browse => "browse",
            AppMode::TypeFilter => "type filter",
            AppMode::Grouping => "grouping",
            AppMode::ActionPicker => "actions",
            AppMode::InstancePicker => "instances",
            AppMode::Help => "help",
        };
        let cs = chars_of(s);
        string_from_chars(cs.as_slice())
    }
}

/// The start of a list row: `> ` on the selected row, two spaces otherwise.
pub open spec fn marker(selected: bool) -> Seq<char> {
    if selected {
        "> "@
    } else {
        "  "@
    }
}

fn push_marker(out: &mut Vec<char>, selected: bool)
    ensures
        final(out)@ == old(out)@ + marker(selected),
{
    if selected {
        push_str(out, "> ");
    } else {
        push_str(out, "  ");
    }
}

fn push_decimal(out: &mut Vec<char>, n: usize)
    ensures
        final(out)@ == old(out)@ + decimal(n as nat),
{
    let d = decimal_chars(n as u64);
    append_chars(out, d.as_slice());
}

/// The search query as the header shows it.
pub open spec fn search_text(query: Seq<char>) -> Seq<char> {
    if query.len() == 0 {
        "<none>"@
    } else {
        query
    }
}

/// `"domain: {domain} | mode: {mode} | group: {grouping} | search: {query}"`,
/// an empty query shown as `<none>`.
pub fn header_title(domain: &str, mode: AppMode, grouping: &str, query: &str) -> (r: String)
    ensures
        r@ == "domain: "@ + domain@ + " | mode: "@ + mode_label(mode) + " | group: "@ + grouping@
            + " | search: "@ + search_text(query@),
{
    let mut out: Vec<char> = Vec::new();
    push_str(&mut out, "domain: ");
    push_str(&mut out, domain);
    push_str(&mut out, " | mode: ");
    let m = mode.label();
    push_str(&mut out, m.as_str());
    push_str(&mut out, " | group: ");
    push_str(&mut out, grouping);
    push_str(&mut out, " | search: ");
    if query.unicode_len() == 0 {
        push_str(&mut out, "<none>");
    } else {
        push_str(&mut out, query);
    }
    string_from_chars(out.as_slice())
}

/// One row of the service list: `"{marker}{label}  [{type}]  {count}"`.
pub fn service_row(selected: bool, label: &str, service_type: &str, count_label: &str) -> (r:
    String)
    ensures
        r@ == marker(selected) + label@ + "  ["@ + service_type@ + "]  "@ + count_label@,
{
    let mut out: Vec<char> = Vec::new();
    push_marker(&mut out, selected);
    push_str(&mut out, label);
    push_str(&mut out, "  [");
    push_str(&mut out, service_type);
    push_str(&mut out, "]  ");
    push_str(&mut out, count_label);
    string_from_chars(out.as_slice())
}

/// The key reminders at the end of the status line.
pub open spec fn status_keys() -> Seq<char> {
    " type filters | / search | t types | g group | enter actions | ? help"@
}

/// `"{status} | {records} records | {rows} rows | {types} type filters | ..."`.
pub fn status_line(status: &str, records: usize, rows: usize, type_filters: usize) -> (r: String)
    ensures
        r@ == status@ + " | "@ + decimal(records as nat) + " records | "@ + decimal(rows as nat)
            + " rows | "@ + decimal(type_filters as nat) + status_keys(),
{
    let mut out: Vec<char> = Vec::new();
    push_str(&mut out, status);
    push_str(&mut out, " | ");
    push_decimal(&mut out, records);
    push_str(&mut out, " records | ");
    push_decimal(&mut out, rows);
    push_str(&mut out, " rows | ");
    push_decimal(&mut out, type_filters);
    push_str(&mut out, " type filters | / search | t types | g group | enter actions | ? help");
    string_from_chars(out.as_slice())
}

/// One row of the service-type checklist: `"{marker}[x] {type}"` for an
/// enabled type, `"{marker}[ ] {type}"` otherwise.
pub fn type_filter_row(selected: bool, enabled: bool, service_type: &str) -> (r: String)
    ensures
        r@ == marker(selected) + (if enabled {
            "[x]"@
        } else {
            "[ ]"@
        }) + " "@ + service_type@,
{
    let mut out: Vec<char> = Vec::new();
    push_marker(&mut out, selected);
    if enabled {
        push_str(&mut out, "[x]");
    } else {
        push_str(&mut out, "[ ]");
    }
    push_str(&mut out, " ");
    push_str(&mut out, service_type);
    string_from_chars(out.as_slice())
}

/// One row of the grouping selector: `"{marker}{mode}"`, with ` *` after the
/// grouping in effect.
pub fn grouping_row(selected: bool, active: bool, mode: &str) -> (r: String)
    ensures
        r@ == marker(selected) + mode@ + (if active {
            " *"@
        } else {
            ""@
        }),
{
    let mut out: Vec<char> = Vec::new();
    push_marker(&mut out, selected);
    push_str(&mut out, mode);
    if active {
        push_str(&mut out, " *");
    }
    proof {
        reveal_strlit("");
    }
    assert(out@ =~= marker(selected) + mode@ + (if active {
        " *"@
    } else {
        ""@
    }));
    string_from_chars(out.as_slice())
}

/// The description shown for an offered command: the action's own, else the
/// command's, else nothing.
pub open spec fn action_description(m: MatchModel) -> Seq<char> {
    match m.command.action.description {
        Some(d) => d,
        None => match m.command.description {
            Some(d) => d,
            None => ""@,
        },
    }
}

/// Whether choosing the command must be followed by choosing an instance.
pub open spec fn asks_for_instance(m: MatchModel) -> bool {
    m.needs_instance && m.records.len() > 1
}

/// One row of the action picker: `"{marker}{name} - {description}"`,
/// followed by ` | choose instance` when an instance must be chosen.
pub fn action_row(selected: bool, action: &MatchResult) -> (r: String)
    ensures
        r@ == marker(selected) + action@.command.name + " - "@ + action_description(action@) + (
        if asks_for_instance(action@) {
            " | choose instance"@
        } else {
            ""@
        }),
{
    let mut out: Vec<char> = Vec::new();
    push_marker(&mut out, selected);
    push_str(&mut out, action.command.name.as_str());
    push_str(&mut out, " - ");
    match &action.command.action.description {
        Some(d) => push_str(&mut out, d.as_str()),
        None => match &action.command.description {
            Some(d) => push_str(&mut out, d.as_str()),
            None => {},
        },
    }
    if action.needs_instance && action.matching_records.len() > 1 {
        push_str(&mut out, " | choose instance");
    }
    proof {
        reveal_strlit("");
    }
    assert(out@ =~= marker(selected) + action@.command.name + " - "@ + action_description(action@)
        + (if asks_for_instance(action@) {
        " | choose instance"@
    } else {
        ""@
    }));
    string_from_chars(out.as_slice())
}

/// One row of the instance picker: the marker, then the instance line.
pub fn instance_row(selected: bool, record: &ServiceRecord) -> (r: String)
    ensures
        r@ == marker(selected) + instance_text(record@),
{
    let mut out: Vec<char> = Vec::new();
    push_marker(&mut out, selected);
    let line = instance_line(record);
    push_str(&mut out, line.as_str());
    string_from_chars(out.as_slice())
}

/// The lines of the help screen.
pub open spec fn help_text() -> Seq<Seq<char>> {
    seq![
        "j/down, k/up: move selection"@,
        "enter: run matching action"@,
        "/: fuzzy filter by text"@,
        "t: service type checklist"@,
        "g: grouping selector"@,
        "q: quit"@,
        "esc: close modal or search"@,
    ]
}

fn push_line(lines: &mut Vec<String>, s: &str)
    ensures
        strings_view(final(lines)@) == strings_view(old(lines)@).push(s@),
{
    let cs = chars_of(s);
    let line = string_from_chars(cs.as_slice());
    lines.push(line);
    assert(strings_view(lines@) =~= strings_view(old(lines)@).push(s@));
}

/// The lines of the help screen.
pub fn help_lines() -> (r: Vec<String>)
    ensures
        strings_view(r@) == help_text(),
{
    let mut lines: Vec<String> = Vec::new();
    push_line(&mut lines, "j/down, k/up: move selection");
    push_line(&mut lines, "enter: run matching action");
    push_line(&mut lines, "/: fuzzy filter by text");
    push_line(&mut lines, "t: service type checklist");
    push_line(&mut lines, "g: grouping selector");
    push_line(&mut lines, "q: quit");
    push_line(&mut lines, "esc: close modal or search");
    assert(strings_view(lines@) =~= help_text());
    lines
}

/// How many instances the details pane lists one by one.
pub const SHOWN_INSTANCES: usize = 8;

/// The instance part of the details pane: one line per instance for the
/// first eight, then `... {n} more` for the rest, if any.
pub open spec fn instance_summary_text(rs: Seq<RecordModel>) -> Seq<Seq<char>> {
    let shown = if rs.len() < SHOWN_INSTANCES {
        rs.len()
    } else {
        SHOWN_INSTANCES as nat
    };
    Seq::new(shown, |i: int| instance_text(rs[i])) + if rs.len() > SHOWN_INSTANCES {
        seq!["... "@ + decimal((rs.len() - SHOWN_INSTANCES) as nat) + " more"@]
    } else {
        seq![]
    }
}

/// The instance part of the details pane for `records`.
pub fn instance_summary(records: &[ServiceRecord]) -> (r: Vec<String>)
    ensures
        strings_view(r@) == instance_summary_text(records@.map_values(|x: ServiceRecord| x@)),
{
    let ghost rs = records@.map_values(|x: ServiceRecord| x@);
    let shown = if records.len() < SHOWN_INSTANCES {
        records.len()
    } else {
        SHOWN_INSTANCES
    };
    let mut lines: Vec<String> = Vec::new();
    let mut i: usize = 0;
    while i < shown
        invariant
            shown <= records@.len(),
            i <= shown,
            rs == records@.map_values(|x: ServiceRecord| x@),
            strings_view(lines@) == Seq::new(i as nat, |k: int| instance_text(rs[k])),
        decreases shown - i,
    {
        let line = instance_line(&records[i]);
        let ghost before = lines@;
        lines.push(line);
        assert(strings_view(lines@) =~= Seq::new((i + 1) as nat, |k: int| instance_text(rs[k])))
            by {
            assert(strings_view(lines@) =~= strings_view(before).push(instance_text(rs[i as int])));
        }
        i = i + 1;
    }
    if records.len() > SHOWN_INSTANCES {
        let mut out: Vec<char> = Vec::new();
        push_str(&mut out, "... ");
        push_decimal(&mut out, records.len() - SHOWN_INSTANCES);
        push_str(&mut out, " more");
        let ghost before = lines@;
        lines.push(string_from_chars(out.as_slice()));
        assert(strings_view(lines@) =~= strings_view(before).push(out@));
    }
    assert(strings_view(lines@) =~= instance_summary_text(rs));
    lines
}

/// The TXT part of the details pane: nothing for a record without TXT
/// entries, else `TXT:`, one `  {key}={value}` line per entry in key order,
/// and an empty line.
pub open spec fn txt_text(entries: Seq<(Seq<char>, Seq<char>)>) -> Seq<Seq<char>> {
    if entries.len() == 0 {
        seq![]
    } else {
        seq!["TXT:"@] + Seq::new(entries.len(), |i: int| "  "@ + entries[i].0 + "="@ + entries[i].1)
            + seq![""@]
    }
}

/// The TXT part of the details pane for `txt`.
pub fn txt_lines(txt: &Table<String>) -> (r: Vec<String>)
    ensures
        strings_view(r@) == txt_text(txt.model()),
{
    let mut lines: Vec<String> = Vec::new();
    let n = txt.len();
    if n == 0 {
        assert(strings_view(lines@) =~= txt_text(txt.model()));
        return lines;
    }
    push_line(&mut lines, "TXT:");
    let ghost es = txt.model();
    let mut i: usize = 0;
    while i < n
        invariant
            n == es.len(),
            es == txt.model(),
            i <= n,
            strings_view(lines@) == seq!["TXT:"@] + Seq::new(i as nat, |k: int| "  "@ + es[k].0 + "="@ + es[k].1),
        decreases n - i,
    {
        let (k, v) = txt.entry(i);
        let mut out: Vec<char> = Vec::new();
        push_str(&mut out, "  ");
        append_chars(&mut out, k.as_slice());
        push_str(&mut out, "=");
        push_str(&mut out, v.as_str());
        let ghost before = lines@;
        lines.push(string_from_chars(out.as_slice()));
        assert(strings_view(lines@) =~= seq!["TXT:"@] + Seq::new((i + 1) as nat, |k: int| "  "@ + es[k].0 + "="@ + es[k].1)) by {
            assert(strings_view(lines@) =~= strings_view(before).push(out@));
        }
        i = i + 1;
    }
    push_line(&mut lines, "");
    assert(strings_view(lines@) =~= txt_text(txt.model()));
    lines
}

/// The space left on each side of a popup that takes `percent` of the
/// screen, as a percentage.
pub fn popup_margin(percent: u16) -> (r: u16)
    requires
        percent <= 100,
    ensures
        r == (100 - percent) / 2,
{
    (100 - percent) / 2
}

/// What the details pane says about the selected row besides its TXT
/// entries and instances.
#[derive(Debug)]
pub struct GroupDetails {
    pub label: String,
    pub id: String,
    pub mode: String,
    /// The name as advertised.
    pub raw_name: String,
    /// The name as shown.
    pub display_name: String,
    pub service_type: String,
    pub domain: String,
    pub hostname: Option<String>,
    pub port: Option<u16>,
    pub last_seen_secs: u64,
}

/// The head of the details pane: group, id, mode, name (and the advertised
/// name where it differs from the shown one), type, domain, host, port,
/// number of instances, how long ago it was last seen, and an empty line.
pub open spec fn details_head(g: GroupDetails, instances: nat) -> Seq<Seq<char>> {
    let head = seq![
        "Group: "@ + g.label@,
        "Id: "@ + g.id@,
        "Mode: "@ + g.mode@,
        "Name: "@ + g.display_name@,
        "Type: "@ + g.service_type@,
        "Domain: "@ + g.domain@,
        "Host: "@ + or_pending(crate::service::opt_text(g.hostname)),
        "Port: "@ + or_pending(port_text(g.port)),
        "Instances: "@ + decimal(instances),
        "Last seen: "@ + decimal(g.last_seen_secs as nat) + "s ago"@,
        ""@,
    ];
    if g.raw_name@ != g.display_name@ {
        head.insert(4, "Raw name: "@ + g.raw_name@)
    } else {
        head
    }
}

/// The whole details pane: the head, the TXT part, then the instances.
pub open spec fn details_text(
    g: GroupDetails,
    txt: Seq<(Seq<char>, Seq<char>)>,
    instances: Seq<RecordModel>,
) -> Seq<Seq<char>> {
    details_head(g, instances.len()) + txt_text(txt) + instance_summary_text(instances)
}

fn joined(a: &str, b: &str) -> (r: String)
    ensures
        r@ == a@ + b@,
{
    let mut out: Vec<char> = Vec::new();
    push_str(&mut out, a);
    push_str(&mut out, b);
    string_from_chars(out.as_slice())
}

fn push_lines(out: &mut Vec<String>, more: Vec<String>)
    ensures
        strings_view(final(out)@) == strings_view(old(out)@) + strings_view(more@),
{
    let mut i: usize = 0;
    let ghost start = strings_view(out@);
    while i < more.len()
        invariant
            i <= more@.len(),
            strings_view(out@) == start + strings_view(more@).take(i as int),
        decreases more@.len() - i,
    {
        let ghost before = out@;
        out.push(more[i].clone());
        assert(strings_view(out@) =~= strings_view(before).push(more@[i as int]@));
        assert(strings_view(more@).take(i + 1) =~= strings_view(more@).take(i as int).push(
            more@[i as int]@,
        ));
        i = i + 1;
    }
    assert(strings_view(more@).take(i as int) =~= strings_view(more@));
}

fn push_joined(out: &mut Vec<String>, a: &str, b: &str)
    ensures
        strings_view(final(out)@) == strings_view(old(out)@).push(a@ + b@),
{
    let line = joined(a, b);
    out.push(line);
    assert(strings_view(out@) =~= strings_view(old(out)@).push(a@ + b@));
}

/// The lines of the details pane for a row described by `group`, with TXT
/// entries `txt` and instances `instances`.
pub fn details_lines(group: &GroupDetails, txt: &Table<String>, instances: &[ServiceRecord]) -> (r:
    Vec<String>)
    ensures
        strings_view(r@) == details_text(
            *group,
            txt.model(),
            instances@.map_values(|x: ServiceRecord| x@),
        ),
{
    let mut lines: Vec<String> = Vec::new();
    push_joined(&mut lines, "Group: ", group.label.as_str());
    push_joined(&mut lines, "Id: ", group.id.as_str());
    push_joined(&mut lines, "Mode: ", group.mode.as_str());
    push_joined(&mut lines, "Name: ", group.display_name.as_str());
    let raw = chars_of(group.raw_name.as_str());
    let shown = chars_of(group.display_name.as_str());
    let differs = !crate::text::chars_eq(raw.as_slice(), shown.as_slice());
    if differs {
        push_joined(&mut lines, "Raw name: ", group.raw_name.as_str());
    }
    push_joined(&mut lines, "Type: ", group.service_type.as_str());
    push_joined(&mut lines, "Domain: ", group.domain.as_str());
    match &group.hostname {
        Some(h) => push_joined(&mut lines, "Host: ", h.as_str()),
        None => push_joined(&mut lines, "Host: ", "<pending>"),
    }
    match group.port {
        Some(p) => {
            let d = decimal_chars(p as u64);
            let ds = string_from_chars(d.as_slice());
            push_joined(&mut lines, "Port: ", ds.as_str());
        },
        None => push_joined(&mut lines, "Port: ", "<pending>"),
    }
    let n = decimal_chars(instances.len() as u64);
    let ns = string_from_chars(n.as_slice());
    push_joined(&mut lines, "Instances: ", ns.as_str());
    let mut seen: Vec<char> = Vec::new();
    push_str(&mut seen, "Last seen: ");
    let secs = decimal_chars(group.last_seen_secs);
    append_chars(&mut seen, secs.as_slice());
    push_str(&mut seen, "s ago");
    let ghost before = lines@;
    lines.push(string_from_chars(seen.as_slice()));
    assert(strings_view(lines@) =~= strings_view(before).push(seen@));
    push_joined(&mut lines, "", "");
    proof {
        reveal_strlit("");
        let g = *group;
        let head = details_head(g, instances@.len());
        assert(strings_view(lines@) =~= head);
    }
    push_lines(&mut lines, txt_lines(txt));
    push_lines(&mut lines, instance_summary(instances));
    lines
}

/// The details pane when no row is selected.
pub fn no_selection_lines() -> (r: Vec<String>)
    ensures
        strings_view(r@) == seq!["No service selected"@],
{
    let mut lines: Vec<String> = Vec::new();
    push_line(&mut lines, "No service selected");
    assert(strings_view(lines@) =~= seq!["No service selected"@]);
    lines
}

/// The service list's only row when no record passes the filters.
pub fn no_services_line() -> (r: String)
    ensures
        r@ == "No services match the active filters"@,
{
    let cs = chars_of("No services match the active filters");
    string_from_chars(cs.as_slice())
}

/// The type checklist's only row before any type was discovered.
pub fn no_types_line() -> (r: String)
    ensures
        r@ == "No service types discovered yet"@,
{
    let cs = chars_of("No service types discovered yet");
    string_from_chars(cs.as_slice())
}

} // verus!
