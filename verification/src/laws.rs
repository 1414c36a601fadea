//! Properties that hold across calls: command layering, matching, filtering
//! and what discovery reports.
use vstd::prelude::*;

use crate::cli::{
    cli_definition_model, ArgKind, CONFIG_DIR_ARG, DOMAIN_ARG, FAKE_DISCOVERY_ARG, LIST_COMMANDS_DIR_ARG,
    LIST_COMMANDS_SUB, SERVICE_TYPE_ARG,
};
use crate::discovery::{
    clean_address, clean_hostname, clean_port, discovered_records, txt_table, upserted,
    DiscoveredServiceInfo,
};
use crate::command_file::{
    array_items, comment_cut, comment_stripped, empty_raw, find_char, line_step, lines, lines_step,
    match_insert, parse_file, parse_quoted, split_from, unescape, ParseState, RawModel,
    SectionModel, ValueModel,
};
use crate::error::ConfigErrorModel;
use crate::filter::{
    embedding, fuzzy_matches, is_subsequence, lowercase_of, lowercase_text, shown, shown_records,
    types_of,
};
use crate::plumber::{
    builder_add, builder_wf, group_matches, lemma_name_index, match_for, matching_records,
    name_index, record_matches, BuilderModel, CommandModel, MatchModel,
};
use crate::service::{has_instance, registration_key, searchable, RecordModel};
use crate::table::{lemma_insert_keys, table_get, table_insert, table_keys};
use crate::text::{is_ws, trim, trim_end, trim_start};

verus! {

/// Adding a command whose name an earlier layer defined replaces that
/// command in place: same position, same number of commands, the others
/// untouched.
pub proof fn law_later_layer_overrides_in_place(b: BuilderModel, cmd: CommandModel, source: Seq<char>)
    requires
        builder_wf(b),
        name_index(b.commands, cmd.name) >= 0,
        b.layers[name_index(b.commands, cmd.name)] < b.layer,
    ensures
        builder_add(b, cmd, source) matches Ok(b2) && {
            let i = name_index(b.commands, cmd.name);
            &&& b2.commands.len() == b.commands.len()
            &&& b2.commands[i] == cmd
            &&& forall|j: int| 0 <= j < b.commands.len() && j != i ==> b2.commands[j] == b.commands[j]
        },
{
    lemma_name_index(b.commands, cmd.name);
}

/// Within one layer a name can be defined only once: a second definition
/// is refused as a duplicate.
pub proof fn law_duplicate_in_layer_refused(b: BuilderModel, cmd: CommandModel, source: Seq<char>)
    requires
        builder_wf(b),
        exists|i: int|
            0 <= i < b.commands.len() && #[trigger] b.commands[i].name == cmd.name && b.layers[i]
                == b.layer,
    ensures
        builder_add(b, cmd, source) == Err::<BuilderModel, ConfigErrorModel>(
            ConfigErrorModel::DuplicateCommand { source, name: cmd.name },
        ),
{
    let i = choose|i: int|
        0 <= i < b.commands.len() && #[trigger] b.commands[i].name == cmd.name && b.layers[i]
            == b.layer;
    lemma_name_index(b.commands, cmd.name);
    let k = name_index(b.commands, cmd.name);
    if k != i {
        if k < i {
            assert(b.commands[k].name != b.commands[i].name);
        } else {
            assert(b.commands[i].name != b.commands[k].name);
        }
    }
}

/// After a new layer starts, any command may be (re)defined once: adding
/// never fails as a duplicate.
pub proof fn law_new_layer_accepts_any_name(b: BuilderModel, cmd: CommandModel, source: Seq<char>)
    requires
        builder_wf(b),
        b.layer < usize::MAX,
    ensures
        builder_add(
            BuilderModel { layer: (b.layer + 1) as usize, ..b },
            cmd,
            source,
        ) is Ok,
{
    lemma_name_index(b.commands, cmd.name);
}

/// A command that was added is the one found under its name, and a new
/// name goes after all earlier ones.
pub proof fn law_added_command_is_found(b: BuilderModel, cmd: CommandModel, source: Seq<char>)
    requires
        builder_wf(b),
        builder_add(b, cmd, source) is Ok,
    ensures
        builder_add(b, cmd, source) matches Ok(b2) && {
            &&& 0 <= name_index(b2.commands, cmd.name) < b2.commands.len()
            &&& b2.commands[name_index(b2.commands, cmd.name)] == cmd
            &&& name_index(b.commands, cmd.name) == -1 ==> name_index(b2.commands, cmd.name)
                == b.commands.len()
        },
{
    lemma_name_index(b.commands, cmd.name);
    let b2 = builder_add(b, cmd, source)->Ok_0;
    lemma_name_index(b2.commands, cmd.name);
    let i = name_index(b.commands, cmd.name);
    let k = name_index(b2.commands, cmd.name);
    if i >= 0 {
        assert(b2.commands[i].name == cmd.name);
        assert(k >= 0);
        if k != i {
            assert(b2.commands[k].name == cmd.name);
            assert(b2.commands[k] == b.commands[k]);
            if k < i {
                assert(b.commands[k].name != b.commands[i].name);
            } else {
                assert(b.commands[i].name != b.commands[k].name);
            }
        }
    } else {
        assert(b2.commands.last() == cmd);
        assert(b2.commands.drop_last() =~= b.commands);
    }
}

/// Every builder state keeps one command per name, one layer per command,
/// and no layer above the current one.
pub proof fn law_builder_stays_well_formed(b: BuilderModel, cmd: CommandModel, source: Seq<char>)
    requires
        builder_wf(b),
    ensures
        builder_add(b, cmd, source) matches Ok(b2) ==> builder_wf(b2),
        b.layer < usize::MAX ==> builder_wf(BuilderModel { layer: (b.layer + 1) as usize, ..b }),
{
    lemma_name_index(b.commands, cmd.name);
    let i = name_index(b.commands, cmd.name);
    if builder_add(b, cmd, source) is Ok {
        let b2 = builder_add(b, cmd, source)->Ok_0;
        assert forall|x: int, y: int| 0 <= x < y < b2.commands.len() implies #[trigger] b2.commands[x].name
            != #[trigger] b2.commands[y].name by {
            if i < 0 && y == b.commands.len() {
                assert(b2.commands[x] == b.commands[x]);
            } else if x != i && y != i {
                assert(b2.commands[x] == b.commands[x]);
                assert(b2.commands[y] == b.commands[y]);
            } else if x == i {
                assert(b2.commands[y] == b.commands[y]);
            } else {
                assert(b2.commands[x] == b.commands[x]);
            }
        }
    }
}

proof fn lemma_matching_records(c: CommandModel, rs: Seq<RecordModel>)
    ensures
        forall|k: int|
            0 <= k < matching_records(c, rs).len() ==> record_matches(
                c,
                #[trigger] matching_records(c, rs)[k],
            ) && rs.contains(matching_records(c, rs)[k]),
        matching_records(c, rs).len() == 0 <==> forall|k: int|
            0 <= k < rs.len() ==> !record_matches(c, #[trigger] rs[k]),
    decreases rs.len(),
{
    if rs.len() > 0 {
        let d = rs.drop_last();
        lemma_matching_records(c, d);
        let m = matching_records(c, rs);
        let md = matching_records(c, d);
        assert forall|k: int| 0 <= k < m.len() implies record_matches(c, #[trigger] m[k])
            && rs.contains(m[k]) by {
            if k < md.len() {
                assert(m[k] == md[k]);
                let p = choose|p: int| 0 <= p < d.len() && d[p] == md[k];
                assert(rs[p] == md[k]);
            } else {
                assert(m[k] == rs.last());
                assert(rs[rs.len() - 1] == m[k]);
            }
        }
        if m.len() == 0 {
            assert forall|k: int| 0 <= k < rs.len() implies !record_matches(c, #[trigger] rs[k]) by {
                if k < rs.len() - 1 {
                    assert(rs[k] == d[k]);
                }
            }
        }
        if forall|k: int| 0 <= k < rs.len() ==> !record_matches(c, #[trigger] rs[k]) {
            assert forall|k: int| 0 <= k < d.len() implies !record_matches(c, #[trigger] d[k]) by {
                assert(d[k] == rs[k]);
            }
            assert(!record_matches(c, rs[rs.len() - 1]));
        }
    }
}

/// Every offer for a group names a loaded command, lists only records of
/// the group, and every listed record passes all of the command's
/// predicates.
pub proof fn law_offers_are_sound(cs: Seq<CommandModel>, rs: Seq<RecordModel>)
    ensures
        forall|k: int|
            0 <= k < group_matches(cs, rs).len() ==> {
                let m = #[trigger] group_matches(cs, rs)[k];
                &&& cs.contains(m.command)
                &&& m.records.len() > 0
                &&& forall|j: int|
                    0 <= j < m.records.len() ==> record_matches(m.command, #[trigger] m.records[j])
                        && rs.contains(m.records[j])
            },
    decreases cs.len(),
{
    if cs.len() > 0 {
        let d = cs.drop_last();
        law_offers_are_sound(d, rs);
        lemma_matching_records(cs.last(), rs);
        let g = group_matches(cs, rs);
        let gd = group_matches(d, rs);
        assert forall|k: int| 0 <= k < g.len() implies {
            let m = #[trigger] g[k];
            &&& cs.contains(m.command)
            &&& m.records.len() > 0
            &&& forall|j: int|
                0 <= j < m.records.len() ==> record_matches(m.command, #[trigger] m.records[j])
                    && rs.contains(m.records[j])
        } by {
            if k < gd.len() {
                assert(g[k] == gd[k]);
                let p = choose|p: int| 0 <= p < d.len() && d[p] == gd[k].command;
                assert(cs[p] == d[p]);
            } else {
                assert(g[k] == match_for(cs.last(), rs)->Some_0);
                assert(cs[cs.len() - 1] == cs.last());
            }
        }
    }
}

/// A command is offered for a group exactly when some record of the group
/// passes all of its predicates.
pub proof fn law_offer_iff_some_record_matches(c: CommandModel, rs: Seq<RecordModel>)
    ensures
        match_for(c, rs) is Some <==> exists|k: int| 0 <= k < rs.len() && record_matches(c, #[trigger] rs[k]),
{
    lemma_matching_records(c, rs);
}

/// Toggling a service type twice restores both sets, for a type that is in
/// exactly one of them (a type in neither ends up disabled).
pub proof fn law_toggle_twice_restores(
    enabled: Set<Seq<char>>,
    disabled: Set<Seq<char>>,
    t: Seq<char>,
)
    requires
        enabled.contains(t) != disabled.contains(t),
    ensures
        ({
            let (e1, d1) = if enabled.contains(t) {
                (enabled.remove(t), disabled.insert(t))
            } else {
                (enabled.insert(t), disabled.remove(t))
            };
            let (e2, d2) = if e1.contains(t) {
                (e1.remove(t), d1.insert(t))
            } else {
                (e1.insert(t), d1.remove(t))
            };
            e2 == enabled && d2 == disabled
        }),
{
    if enabled.contains(t) {
        assert(enabled.remove(t).insert(t) =~= enabled);
        assert(disabled.insert(t).remove(t) =~= disabled);
    } else {
        assert(enabled.insert(t).remove(t) =~= enabled);
        assert(disabled.remove(t).insert(t) =~= disabled);
    }
}

/// Syncing never enables a type the user disabled, and keeps the enabled
/// and disabled sets apart when they were apart.
pub proof fn law_sync_respects_disabled(
    enabled: Set<Seq<char>>,
    disabled: Set<Seq<char>>,
    types: Set<Seq<char>>,
)
    requires
        enabled.disjoint(disabled),
    ensures
        enabled.union(types.difference(disabled)).disjoint(disabled),
{
}

/// Toggling keeps the enabled and disabled sets apart.
pub proof fn law_toggle_keeps_sets_apart(
    enabled: Set<Seq<char>>,
    disabled: Set<Seq<char>>,
    t: Seq<char>,
)
    requires
        enabled.disjoint(disabled),
    ensures
        enabled.contains(t) ==> enabled.remove(t).disjoint(disabled.insert(t)),
        !enabled.contains(t) ==> enabled.insert(t).disjoint(disabled.remove(t)),
{
}

proof fn lemma_shown_records(e: Set<Seq<char>>, q: Seq<char>, rs: Seq<RecordModel>)
    ensures
        forall|k: int|
            0 <= k < shown_records(e, q, rs).len() ==> shown(e, q, #[trigger] shown_records(e, q, rs)[k]),
        forall|k: int|
            0 <= k < rs.len() && shown(e, q, #[trigger] rs[k]) ==> shown_records(e, q, rs).contains(rs[k]),
    decreases rs.len(),
{
    if rs.len() > 0 {
        let d = rs.drop_last();
        lemma_shown_records(e, q, d);
        let s = shown_records(e, q, rs);
        let sd = shown_records(e, q, d);
        assert forall|k: int| 0 <= k < s.len() implies shown(e, q, #[trigger] s[k]) by {
            if k < sd.len() {
                assert(s[k] == sd[k]);
            }
        }
        assert forall|k: int| 0 <= k < rs.len() && shown(e, q, #[trigger] rs[k]) implies s.contains(rs[k]) by {
            if k < rs.len() - 1 {
                assert(rs[k] == d[k]);
                let p = choose|p: int| 0 <= p < sd.len() && sd[p] == d[k];
                assert(s[p] == sd[p]);
            } else {
                assert(s[s.len() - 1] == rs[k]);
            }
        }
    }
}

proof fn lemma_shown_all(e: Set<Seq<char>>, q: Seq<char>, rs: Seq<RecordModel>)
    requires
        forall|k: int| 0 <= k < rs.len() ==> shown(e, q, #[trigger] rs[k]),
    ensures
        shown_records(e, q, rs) == rs,
    decreases rs.len(),
{
    if rs.len() > 0 {
        let d = rs.drop_last();
        assert forall|k: int| 0 <= k < d.len() implies shown(e, q, #[trigger] d[k]) by {
            assert(d[k] == rs[k]);
        }
        lemma_shown_all(e, q, d);
        assert(shown(e, q, rs[rs.len() - 1]));
        assert(rs =~= d + seq![rs.last()]);
    }
}

/// Filtering is idempotent: what a filter shows, it shows again unchanged;
/// and everything it shows passes it.
pub proof fn law_filter_idempotent(e: Set<Seq<char>>, q: Seq<char>, rs: Seq<RecordModel>)
    ensures
        shown_records(e, q, shown_records(e, q, rs)) == shown_records(e, q, rs),
        forall|k: int|
            0 <= k < shown_records(e, q, rs).len() ==> e.contains(
                #[trigger] shown_records(e, q, rs)[k].service_type,
            ),
{
    lemma_shown_records(e, q, rs);
    lemma_shown_all(e, q, shown_records(e, q, rs));
    assert forall|k: int| 0 <= k < shown_records(e, q, rs).len() implies e.contains(
        #[trigger] shown_records(e, q, rs)[k].service_type,
    ) by {
        assert(shown(e, q, shown_records(e, q, rs)[k]));
    }
}

/// A blank query shows every record of an enabled type.
pub proof fn law_blank_query_keeps_enabled(e: Set<Seq<char>>, q: Seq<char>, rs: Seq<RecordModel>)
    requires
        trim(q).len() == 0,
        forall|k: int| 0 <= k < rs.len() ==> e.contains(#[trigger] rs[k].service_type),
    ensures
        shown_records(e, q, rs) == rs,
{
    assert forall|k: int| 0 <= k < rs.len() implies shown(e, q, #[trigger] rs[k]) by {
        assert(e.contains(rs[k].service_type));
    }
    lemma_shown_all(e, q, rs);
}

/// The empty needle matches every haystack, and every text matches itself.
pub proof fn law_fuzzy_reflexive(h: Seq<char>, s: Seq<char>)
    ensures
        fuzzy_matches(h, seq![]),
        fuzzy_matches(s, s),
{
    let e: Seq<int> = seq![];
    assert(embedding(crate::filter::lowercase_text(seq![]), crate::filter::lowercase_text(h), e));
    let l = crate::filter::lowercase_text(s);
    let id = Seq::new(l.len(), |i: int| i);
    assert(embedding(l, l, id));
}

/// A subsequence of a subsequence is a subsequence: a needle that matches a
/// part of a haystack matches the haystack.
pub proof fn law_subsequence_transitive(a: Seq<char>, b: Seq<char>, c: Seq<char>)
    requires
        is_subsequence(a, b),
        is_subsequence(b, c),
    ensures
        is_subsequence(a, c),
{
    let f = choose|f: Seq<int>| embedding(a, b, f);
    let g = choose|g: Seq<int>| embedding(b, c, g);
    let h = Seq::new(a.len(), |i: int| g[f[i]]);
    assert forall|i: int, j: int| 0 <= i < j < h.len() implies #[trigger] h[i] < #[trigger] h[j] by {
        assert(f[i] < f[j]);
    }
    assert(embedding(a, c, h));
}

/// One record per resolved address, one for a service without addresses;
/// all of them under the service's registration key.
pub proof fn law_one_record_per_address(s: DiscoveredServiceInfo)
    ensures
        discovered_records(s).len() == if s.addresses@.len() == 0 {
            1
        } else {
            s.addresses@.len()
        },
        forall|k: int|
            0 <= k < discovered_records(s).len() ==> (#[trigger] discovered_records(s)[k]).registration
                == registration_key(s.name@, s.service_type@, s.domain@),
{
}

/// A removal reported for a service names the registration key that every
/// record upserted for it carries.
pub proof fn law_removal_matches_upserts(
    name: Seq<char>,
    service_type: Seq<char>,
    domain: Seq<char>,
    hostname: Option<Seq<char>>,
    address: Option<Seq<char>>,
    port: Option<u16>,
    txt: Seq<(Seq<char>, Seq<char>)>,
)
    ensures
        upserted(name, service_type, domain, hostname, address, port, txt).registration
            == registration_key(name, service_type, domain),
{
}

/// A blank host name, a blank address and port zero leave a record
/// unresolved.
pub proof fn law_blank_fields_are_unresolved(
    name: Seq<char>,
    service_type: Seq<char>,
    domain: Seq<char>,
    hostname: Seq<char>,
    address: Seq<char>,
    txt: Seq<(Seq<char>, Seq<char>)>,
)
    requires
        trim(hostname).len() == 0,
        trim(address).len() == 0,
    ensures
        !has_instance(
            upserted(name, service_type, domain, Some(hostname), Some(address), Some(0u16), txt),
        ),
        clean_hostname(Some(hostname)) is None,
        clean_port(Some(0u16)) is None,
{
}

/// Lower-casing a text lower-cases its parts.
proof fn lemma_lowercase_concat(a: Seq<char>, b: Seq<char>)
    ensures
        lowercase_text(a + b) == lowercase_text(a) + lowercase_text(b),
    decreases b.len(),
{
    if b.len() == 0 {
        assert(a + b =~= a);
        assert(lowercase_text(a) + lowercase_text(b) =~= lowercase_text(a));
    } else {
        lemma_lowercase_concat(a, b.drop_last());
        assert((a + b).drop_last() =~= a + b.drop_last());
        assert((a + b).last() == b.last());
        assert(lowercase_text(a) + lowercase_text(b) =~= lowercase_text(a) + lowercase_text(
            b.drop_last(),
        ) + crate::filter::lowercase_of(b.last()));
    }
}

/// A fuzzy match survives text added before and after the haystack.
pub proof fn law_fuzzy_survives_surrounding_text(
    p: Seq<char>,
    h: Seq<char>,
    s: Seq<char>,
    n: Seq<char>,
)
    requires
        fuzzy_matches(h, n),
    ensures
        fuzzy_matches(p + h + s, n),
{
    lemma_lowercase_concat(p, h);
    lemma_lowercase_concat(p + h, s);
    let lp = lowercase_text(p);
    let lh = lowercase_text(h);
    let big = lowercase_text(p + h + s);
    assert(big == lp + lh + lowercase_text(s));
    let shift = Seq::new(lh.len(), |i: int| i + lp.len());
    assert forall|i: int| 0 <= i < shift.len() implies 0 <= #[trigger] shift[i] < big.len() && big[shift[i]]
        == lh[i] by {
        assert(big[i + lp.len()] == (lp + lh)[i + lp.len()]);
    }
    assert(embedding(lh, big, shift));
    law_subsequence_transitive(lowercase_text(n), lh, big);
}

/// Filtering a concatenation filters each part: what a filter shows of
/// `a + b` is what it shows of `a` followed by what it shows of `b`.
pub proof fn law_filter_distributes(e: Set<Seq<char>>, q: Seq<char>, a: Seq<RecordModel>, b: Seq<RecordModel>)
    ensures
        shown_records(e, q, a + b) == shown_records(e, q, a) + shown_records(e, q, b),
    decreases b.len(),
{
    if b.len() == 0 {
        assert(a + b =~= a);
        assert(shown_records(e, q, a) + shown_records(e, q, b) =~= shown_records(e, q, a));
    } else {
        law_filter_distributes(e, q, a, b.drop_last());
        assert((a + b).drop_last() =~= a + b.drop_last());
        assert((a + b).last() == b.last());
        let tail = if shown(e, q, b.last()) {
            seq![b.last()]
        } else {
            seq![]
        };
        assert(shown_records(e, q, a) + shown_records(e, q, b) =~= shown_records(e, q, a)
            + shown_records(e, q, b.drop_last()) + tail);
    }
}

// ---------------------------------------------------------------------------
// The command-file reader
// ---------------------------------------------------------------------------
proof fn lemma_comment_cut_bounds(line: Seq<char>, i: int, in_string: bool, escaped: bool)
    requires
        0 <= i <= line.len(),
    ensures
        i <= comment_cut(line, i, in_string, escaped) <= line.len(),
    decreases line.len() - i,
{
    if i < line.len() {
        let ch = line[i];
        if ch == '\\' && in_string {
            lemma_comment_cut_bounds(line, i + 1, in_string, !escaped);
        } else if ch == '"' && !escaped {
            lemma_comment_cut_bounds(line, i + 1, !in_string, escaped);
        } else if ch == '#' && !in_string {
        } else {
            lemma_comment_cut_bounds(line, i + 1, in_string, false);
        }
    }
}

proof fn lemma_comment_cut_of_prefix(line: Seq<char>, i: int, in_string: bool, escaped: bool)
    requires
        0 <= i <= line.len(),
    ensures
        comment_cut(line.take(comment_cut(line, i, in_string, escaped)), i, in_string, escaped)
            == comment_cut(line, i, in_string, escaped),
    decreases line.len() - i,
{
    lemma_comment_cut_bounds(line, i, in_string, escaped);
    let c = comment_cut(line, i, in_string, escaped);
    let t = line.take(c);
    if i < line.len() {
        let ch = line[i];
        if ch == '\\' && in_string {
            lemma_comment_cut_bounds(line, i + 1, in_string, !escaped);
            lemma_comment_cut_of_prefix(line, i + 1, in_string, !escaped);
            assert(t[i] == ch);
        } else if ch == '"' && !escaped {
            lemma_comment_cut_bounds(line, i + 1, !in_string, escaped);
            lemma_comment_cut_of_prefix(line, i + 1, !in_string, escaped);
            assert(t[i] == ch);
        } else if ch == '#' && !in_string {
        } else {
            lemma_comment_cut_bounds(line, i + 1, in_string, false);
            lemma_comment_cut_of_prefix(line, i + 1, in_string, false);
            assert(t[i] == ch);
        }
    }
}

/// Stripping a comment leaves a prefix of the line, and stripping again
/// changes nothing.
pub proof fn law_comment_stripping_is_a_prefix_and_idempotent(line: Seq<char>)
    ensures
        comment_stripped(line).is_prefix_of(line),
        comment_stripped(comment_stripped(line)) == comment_stripped(line),
{
    lemma_comment_cut_bounds(line, 0, false, false);
    lemma_comment_cut_of_prefix(line, 0, false, false);
    let t = comment_stripped(line);
    assert(t.take(t.len() as int) =~= t);
}

/// Array items joined with commas.
pub open spec fn joined_with_commas(items: Seq<Seq<char>>) -> Seq<char>
    decreases items.len(),
{
    if items.len() == 0 {
        seq![]
    } else if items.len() == 1 {
        items[0]
    } else {
        items[0] + seq![','] + joined_with_commas(items.drop_first())
    }
}

proof fn lemma_split_from_joins(v: Seq<char>, i: int, start: int, in_string: bool, escaped: bool)
    requires
        0 <= start <= i <= v.len(),
    ensures
        split_from(v, i, start, in_string, escaped).len() >= 1,
        joined_with_commas(split_from(v, i, start, in_string, escaped)) == v.subrange(
            start,
            v.len() as int,
        ),
    decreases v.len() - i,
{
    if i < v.len() {
        let ch = v[i];
        if ch == '\\' && in_string {
            lemma_split_from_joins(v, i + 1, start, in_string, !escaped);
        } else if ch == '"' && !escaped {
            lemma_split_from_joins(v, i + 1, start, !in_string, escaped);
        } else if ch == ',' && !in_string {
            lemma_split_from_joins(v, i + 1, i + 1, in_string, escaped);
            let rest = split_from(v, i + 1, i + 1, in_string, escaped);
            let all = seq![v.subrange(start, i)] + rest;
            assert(all.drop_first() =~= rest);
            assert(all[0] == v.subrange(start, i));
            assert(v.subrange(start, i) + seq![','] + v.subrange(i + 1, v.len() as int)
                =~= v.subrange(start, v.len() as int));
        } else {
            lemma_split_from_joins(v, i + 1, start, in_string, false);
        }
    }
}

/// The items of an array body, joined again with commas, give back the
/// body; there is always at least one item.
pub proof fn law_array_items_join_back(v: Seq<char>)
    ensures
        array_items(v).len() >= 1,
        joined_with_commas(array_items(v)) == v,
{
    lemma_split_from_joins(v, 0, 0, false, false);
    assert(v.subrange(0, v.len() as int) =~= v);
}

proof fn lemma_unescape_plain(s: Seq<char>)
    requires
        !s.contains('\\'),
    ensures
        unescape(s) == Some(s),
    decreases s.len(),
{
    if s.len() > 0 {
        assert(s[0] != '\\') by {
            if s[0] == '\\' {
                assert(s.contains('\\'));
            }
        }
        assert(!s.skip(1).contains('\\')) by {
            if s.skip(1).contains('\\') {
                let k = choose|k: int| 0 <= k < s.skip(1).len() && s.skip(1)[k] == '\\';
                assert(s[k + 1] == '\\');
            }
        }
        lemma_unescape_plain(s.skip(1));
        assert(seq![s[0]] + s.skip(1) =~= s);
    }
}

/// A text without backslashes, put in double quotes, reads back as itself.
pub proof fn law_quoted_text_reads_back(s: Seq<char>)
    requires
        !s.contains('\\'),
    ensures
        parse_quoted(seq!['"'] + s + seq!['"']) == Ok::<Seq<char>, crate::command_file::StringError>(s),
{
    let v = seq!['"'] + s + seq!['"'];
    assert(v.subrange(1, v.len() - 1) =~= s);
    lemma_unescape_plain(s);
}

proof fn lemma_line_number_irrelevant(
    source: Seq<char>,
    st: ParseState,
    l: Seq<char>,
    n1: nat,
    n2: nat,
)
    requires
        line_step(source, st, l, n1) is Ok,
    ensures
        line_step(source, st, l, n2) == line_step(source, st, l, n1),
{
}

proof fn lemma_shifted_lines(
    source: Seq<char>,
    ls: Seq<Seq<char>>,
    k: int,
    b: Seq<char>,
    j: int,
    st: ParseState,
)
    requires
        0 <= k <= j,
        k <= ls.len(),
        lines_step(source, ls, j, st) is Ok,
    ensures
        lines_step(source, ls.insert(k, b), j + 1, st) == lines_step(source, ls, j, st),
    decreases ls.len() - j,
{
    let ls2 = ls.insert(k, b);
    if j < ls.len() {
        assert(ls2[j + 1] == ls[j]);
        lemma_line_number_irrelevant(source, st, ls[j], (j + 1) as nat, (j + 2) as nat);
        let next = line_step(source, st, ls[j], (j + 1) as nat)->Ok_0;
        lemma_shifted_lines(source, ls, k, b, j + 1, next);
    }
}

proof fn lemma_inserted_blank_line(
    source: Seq<char>,
    ls: Seq<Seq<char>>,
    k: int,
    b: Seq<char>,
    i: int,
    st: ParseState,
)
    requires
        0 <= i <= k <= ls.len(),
        trim(comment_stripped(b)).len() == 0,
        lines_step(source, ls, i, st) is Ok,
    ensures
        lines_step(source, ls.insert(k, b), i, st) == lines_step(source, ls, i, st),
    decreases k - i,
{
    let ls2 = ls.insert(k, b);
    if i == k {
        assert(ls2[k] == b);
        lemma_shifted_lines(source, ls, k, b, k, st);
    } else {
        assert(ls2[i] == ls[i]);
        let next = line_step(source, st, ls[i], (i + 1) as nat)->Ok_0;
        lemma_inserted_blank_line(source, ls, k, b, i + 1, next);
    }
}

/// A blank or comment-only line inserted anywhere into a command file that
/// reads without error leaves what it reads unchanged.
pub proof fn law_blank_lines_change_nothing(
    source: Seq<char>,
    ls: Seq<Seq<char>>,
    k: int,
    b: Seq<char>,
    st: ParseState,
)
    requires
        0 <= k <= ls.len(),
        trim(comment_stripped(b)).len() == 0,
        lines_step(source, ls, 0, st) is Ok,
    ensures
        lines_step(source, ls.insert(k, b), 0, st) == lines_step(source, ls, 0, st),
{
    lemma_inserted_blank_line(source, ls, k, b, 0, st);
}

proof fn lemma_cut_plain(line: Seq<char>, i: int, j: int, in_string: bool)
    requires
        0 <= i <= j <= line.len(),
        forall|k: int|
            i <= k < j ==> #[trigger] line[k] != '\\' && line[k] != '"' && (in_string || line[k]
                != '#'),
    ensures
        comment_cut(line, i, in_string, false) == comment_cut(line, j, in_string, false),
    decreases j - i,
{
    if i < j {
        lemma_cut_plain(line, i + 1, j, in_string);
    }
}

proof fn lemma_find_plain(s: Seq<char>, c: char, i: int, j: int)
    requires
        0 <= i <= j <= s.len(),
        forall|k: int| i <= k < j ==> #[trigger] s[k] != c,
    ensures
        find_char(s, c, i) == find_char(s, c, j),
    decreases j - i,
{
    if i < j {
        lemma_find_plain(s, c, i + 1, j);
    }
}

proof fn lemma_get_inserted<V>(t: Seq<(Seq<char>, V)>, k: Seq<char>, v: V)
    ensures
        table_get(table_insert(t, k, v), k) == Some(v),
    decreases t.len(),
{
    if t.len() > 0 && t[0].0 != k && !crate::text::text_lt(k, t[0].0) {
        lemma_get_inserted(t.drop_first(), k, v);
        assert((seq![t[0]] + table_insert(t.drop_first(), k, v)).drop_first() =~= table_insert(
            t.drop_first(),
            k,
            v,
        ));
    }
}

/// The entry for `key` in the section `sec` of read entries.
pub open spec fn section_entry(raw: RawModel, sec: SectionModel, key: Seq<char>) -> Option<ValueModel> {
    match sec {
        SectionModel::Metadata => table_get(raw.metadata, key),
        SectionModel::Action => table_get(raw.action, key),
        SectionModel::Match(field) => match table_get(raw.predicates, field) {
            Some(entries) => table_get(entries, key),
            None => None,
        },
    }
}

/// The entries with `key` in section `sec` set to `v`.
pub open spec fn section_insert(raw: RawModel, sec: SectionModel, key: Seq<char>, v: ValueModel) -> RawModel {
    match sec {
        SectionModel::Metadata => RawModel { metadata: table_insert(raw.metadata, key, v), ..raw },
        SectionModel::Action => RawModel { action: table_insert(raw.action, key, v), ..raw },
        SectionModel::Match(field) => RawModel {
            predicates: match_insert(raw.predicates, field, key, v),
            ..raw
        },
    }
}

/// A line `key = "value"` sets `key` in the current section to `value`,
/// whatever an earlier line set it to: a later key wins.
pub proof fn law_later_key_wins(
    source: Seq<char>,
    st: ParseState,
    key: Seq<char>,
    value: Seq<char>,
    n: nat,
)
    requires
        st.section is Some,
        key.len() > 0,
        !is_ws(key[0]),
        !is_ws(key.last()),
        forall|k: int|
            0 <= k < key.len() ==> #[trigger] key[k] != '=' && key[k] != '"' && key[k] != '\\'
                && key[k] != '#',
        forall|k: int|
            0 <= k < value.len() ==> #[trigger] value[k] != '"' && value[k] != '\\' && value[k]
                != '#',
    ensures
        line_step(source, st, key + seq![' ', '=', ' ', '"'] + value + seq!['"'], n) == Ok::<
            ParseState,
            ConfigErrorModel,
        >(
            ParseState {
                raw: section_insert(st.raw, st.section->0, key, ValueModel::Text(value)),
                section: st.section,
            },
        ),
        section_entry(
            section_insert(st.raw, st.section->0, key, ValueModel::Text(value)),
            st.section->0,
            key,
        ) == Some(ValueModel::Text(value)),
{
    let q = seq!['"'] + value + seq!['"'];
    let l = key + seq![' ', '=', ' ', '"'] + value + seq!['"'];
    let kl = key.len() as int;
    let end = kl + 4 + value.len();
    assert(l.len() == end + 1);
    // No comment: the quotes open and close around the value.
    assert forall|k: int| 0 <= k < kl + 3 implies #[trigger] l[k] != '\\' && l[k] != '"' && l[k]
        != '#' by {
        if k < kl {
            assert(l[k] == key[k]);
        }
    }
    lemma_cut_plain(l, 0, kl + 3, false);
    assert(l[kl + 3] == '"');
    assert forall|k: int| kl + 4 <= k < end implies #[trigger] l[k] != '\\' && l[k] != '"' by {
        assert(l[k] == value[k - kl - 4]);
    }
    lemma_cut_plain(l, kl + 4, end, true);
    assert(l[end] == '"');
    assert(comment_cut(l, end + 1, false, false) == l.len());
    assert(comment_cut(l, 0, false, false) == l.len());
    assert(comment_stripped(l) =~= l);
    assert(l[0] == key[0]);
    assert(trim_start(l) == l);
    assert(trim_end(l) == l);
    assert(trim(comment_stripped(l)) == l);
    assert(l.last() == '"');
    // The `=` after the key.
    assert forall|k: int| 0 <= k < kl + 1 implies #[trigger] l[k] != '=' by {
        if k < kl {
            assert(l[k] == key[k]);
        }
    }
    lemma_find_plain(l, '=', 0, kl + 1);
    assert(l[kl + 1] == '=');
    assert(find_char(l, '=', 0) == kl + 1);
    // The key, trimmed.
    let before = l.take(kl + 1);
    assert(before.drop_last() =~= key);
    assert(before[0] == key[0]);
    assert(trim_start(before) == before);
    assert(is_ws(before.last()));
    assert(trim_end(key) == key);
    assert(trim(before) == key);
    // The value, trimmed.
    let after = l.skip(kl + 2);
    assert(after.drop_first() =~= q);
    assert(is_ws(after[0]));
    assert(trim_start(q) == q);
    assert(trim_start(after) == q);
    assert(trim_end(q) == q);
    assert(trim(after) == q);
    law_quoted_text_reads_back(value);
    assert(!value.contains('\\'));
    match st.section->0 {
        SectionModel::Metadata => {
            lemma_get_inserted(st.raw.metadata, key, ValueModel::Text(value));
        },
        SectionModel::Action => {
            lemma_get_inserted(st.raw.action, key, ValueModel::Text(value));
        },
        SectionModel::Match(field) => {
            let inner = match table_get(st.raw.predicates, field) {
                Some(e) => e,
                None => seq![],
            };
            lemma_get_inserted(st.raw.predicates, field, table_insert(inner, key, ValueModel::Text(value)));
            lemma_get_inserted(inner, key, ValueModel::Text(value));
        },
    }
}

/// The reader's state after lines `i..`: the entries and the section in
/// effect.
pub open spec fn state_after(
    source: Seq<char>,
    ls: Seq<Seq<char>>,
    i: int,
    st: ParseState,
) -> Result<ParseState, ConfigErrorModel>
    decreases ls.len() - i,
{
    if i < 0 || i >= ls.len() {
        Ok(st)
    } else {
        match line_step(source, st, ls[i], (i + 1) as nat) {
            Err(e) => Err(e),
            Ok(next) => state_after(source, ls, i + 1, next),
        }
    }
}

/// The section in effect at the end of command-file text `text`.
pub open spec fn section_after(source: Seq<char>, text: Seq<char>) -> Option<SectionModel> {
    match state_after(source, lines(text), 0, ParseState { raw: empty_raw(), section: None }) {
        Ok(st) => st.section,
        Err(_) => None,
    }
}

proof fn lemma_lines_step_state(source: Seq<char>, ls: Seq<Seq<char>>, i: int, st: ParseState)
    ensures
        lines_step(source, ls, i, st) == match state_after(source, ls, i, st) {
            Ok(p) => Ok::<RawModel, ConfigErrorModel>(p.raw),
            Err(e) => Err(e),
        },
    decreases ls.len() - i,
{
    if 0 <= i < ls.len() {
        match line_step(source, st, ls[i], (i + 1) as nat) {
            Err(e) => {},
            Ok(next) => lemma_lines_step_state(source, ls, i + 1, next),
        }
    }
}

proof fn lemma_state_after_push(
    source: Seq<char>,
    ls: Seq<Seq<char>>,
    l: Seq<char>,
    i: int,
    st: ParseState,
)
    requires
        0 <= i <= ls.len(),
    ensures
        state_after(source, ls.push(l), i, st) == match state_after(source, ls, i, st) {
            Ok(p) => line_step(source, p, l, (ls.len() + 1) as nat),
            Err(e) => Err(e),
        },
    decreases ls.len() - i,
{
    let ls2 = ls.push(l);
    if i == ls.len() {
        assert(ls2[i] == l);
        match line_step(source, st, l, (i + 1) as nat) {
            Err(e) => {},
            Ok(next) => {
                assert(state_after(source, ls2, i + 1, next) == Ok::<ParseState, ConfigErrorModel>(next));
            },
        }
    } else {
        assert(ls2[i] == ls[i]);
        match line_step(source, st, ls[i], (i + 1) as nat) {
            Err(e) => {},
            Ok(next) => lemma_state_after_push(source, ls, l, i + 1, next),
        }
    }
}

/// Blank or comment-only lines inserted anywhere into a command file that
/// reads without error leave what it reads unchanged: `text2` is `text` with
/// the line `b` inserted as its line `k`.
pub proof fn law_blank_lines_in_file_change_nothing(
    source: Seq<char>,
    text: Seq<char>,
    text2: Seq<char>,
    k: int,
    b: Seq<char>,
)
    requires
        parse_file(source, text) is Ok,
        0 <= k <= lines(text).len(),
        lines(text2) == lines(text).insert(k, b),
        trim(comment_stripped(b)).len() == 0,
    ensures
        parse_file(source, text2) == parse_file(source, text),
{
    law_blank_lines_change_nothing(
        source,
        lines(text),
        k,
        b,
        ParseState { raw: empty_raw(), section: None },
    );
}

/// A line `key = "value"` appended to a command file that reads without
/// error, and whose last section is `sec`, sets `key` in `sec` to `value` and
/// changes nothing else, whatever an earlier line set it to.
pub proof fn law_appended_key_wins_in_file(
    source: Seq<char>,
    text: Seq<char>,
    text2: Seq<char>,
    key: Seq<char>,
    value: Seq<char>,
)
    requires
        parse_file(source, text) is Ok,
        section_after(source, text) is Some,
        lines(text2) == lines(text).push(key + seq![' ', '=', ' ', '"'] + value + seq!['"']),
        key.len() > 0,
        !is_ws(key[0]),
        !is_ws(key.last()),
        forall|k: int|
            0 <= k < key.len() ==> #[trigger] key[k] != '=' && key[k] != '"' && key[k] != '\\'
                && key[k] != '#',
        forall|k: int|
            0 <= k < value.len() ==> #[trigger] value[k] != '"' && value[k] != '\\' && value[k]
                != '#',
    ensures
        parse_file(source, text2) == Ok::<RawModel, ConfigErrorModel>(
            section_insert(
                parse_file(source, text)->Ok_0,
                section_after(source, text)->0,
                key,
                ValueModel::Text(value),
            ),
        ),
        section_entry(parse_file(source, text2)->Ok_0, section_after(source, text)->0, key) == Some(
            ValueModel::Text(value),
        ),
{
    let init = ParseState { raw: empty_raw(), section: None };
    let ls = lines(text);
    let l = key + seq![' ', '=', ' ', '"'] + value + seq!['"'];
    lemma_lines_step_state(source, ls, 0, init);
    lemma_lines_step_state(source, ls.push(l), 0, init);
    lemma_state_after_push(source, ls, l, 0, init);
    let p = state_after(source, ls, 0, init)->Ok_0;
    law_later_key_wins(source, p, key, value, (ls.len() + 1) as nat);
}

/// Starting a new layer lets a command whose name is already defined be
/// added again: it replaces the earlier one at its position, tagged with the
/// new layer. Without the new layer the same addition is refused when the
/// name was defined in the current one. `MatcherBuilder::start_layer` takes a
/// builder `b` (below the top layer) to `BuilderModel { layer: b.layer + 1, ..b }`.
pub proof fn law_start_layer_then_override(b: BuilderModel, cmd: CommandModel, source: Seq<char>)
    requires
        builder_wf(b),
        b.layer < usize::MAX,
        name_index(b.commands, cmd.name) >= 0,
    ensures
        ({
            let i = name_index(b.commands, cmd.name);
            builder_add(BuilderModel { layer: (b.layer + 1) as usize, ..b }, cmd, source) == Ok::<
                BuilderModel,
                ConfigErrorModel,
            >(
                BuilderModel {
                    commands: b.commands.update(i, cmd),
                    layers: b.layers.update(i, (b.layer + 1) as usize),
                    layer: (b.layer + 1) as usize,
                },
            )
        }),
        b.layers[name_index(b.commands, cmd.name)] == b.layer ==> builder_add(b, cmd, source)
            == Err::<BuilderModel, ConfigErrorModel>(
            ConfigErrorModel::DuplicateCommand { source, name: cmd.name },
        ),
{
    lemma_name_index(b.commands, cmd.name);
}

/// The enabled types after syncing with each batch of records in turn.
pub open spec fn enabled_after_syncs(
    enabled: Set<Seq<char>>,
    disabled: Set<Seq<char>>,
    batches: Seq<Seq<RecordModel>>,
) -> Set<Seq<char>>
    decreases batches.len(),
{
    if batches.len() == 0 {
        enabled
    } else {
        enabled_after_syncs(enabled, disabled, batches.drop_last()).union(
            types_of(batches.last()).difference(disabled),
        )
    }
}

/// A type the user switched off stays off through any number of syncs with
/// discovered records, whatever types those records have. Toggling an
/// enabled type `t` leaves `enabled.remove(t)` and `disabled.insert(t)`, and
/// syncing never changes the disabled types.
pub proof fn law_switched_off_type_stays_off(
    enabled: Set<Seq<char>>,
    disabled: Set<Seq<char>>,
    t: Seq<char>,
    batches: Seq<Seq<RecordModel>>,
)
    ensures
        !enabled_after_syncs(enabled.remove(t), disabled.insert(t), batches).contains(t),
    decreases batches.len(),
{
    if batches.len() > 0 {
        law_switched_off_type_stays_off(enabled, disabled, t, batches.drop_last());
    }
}

/// An ASCII letter's upper-case form.
pub open spec fn ascii_upper(c: char) -> char {
    if 'a' <= c && c <= 'z' {
        ((c as u32) - 32) as char
    } else {
        c
    }
}

pub open spec fn ascii_upper_text(s: Seq<char>) -> Seq<char> {
    s.map_values(|c: char| ascii_upper(c))
}

proof fn lemma_lowercase_of_upper_text(s: Seq<char>)
    requires
        forall|c: char| 'a' <= c && c <= 'z' ==> #[trigger] lowercase_of(ascii_upper(c))
            == lowercase_of(c),
    ensures
        lowercase_text(ascii_upper_text(s)) == lowercase_text(s),
    decreases s.len(),
{
    if s.len() > 0 {
        lemma_lowercase_of_upper_text(s.drop_last());
        assert(ascii_upper_text(s).drop_last() =~= ascii_upper_text(s.drop_last()));
        assert(ascii_upper_text(s).last() == ascii_upper(s.last()));
        if 'a' <= s.last() && s.last() <= 'z' {
            assert(lowercase_of(ascii_upper(s.last())) == lowercase_of(s.last()));
        }
    }
}

/// Upper-casing the ASCII letters of the haystack or of the needle does not
/// change whether they match, given that `char::to_lowercase` maps an ASCII
/// letter and its upper-case form alike (a fact of Unicode's mapping that the
/// library does not state; `lowercase_of` only names the mapping).
pub proof fn law_fuzzy_ignores_ascii_case(h: Seq<char>, n: Seq<char>)
    requires
        forall|c: char| 'a' <= c && c <= 'z' ==> #[trigger] lowercase_of(ascii_upper(c))
            == lowercase_of(c),
    ensures
        fuzzy_matches(ascii_upper_text(h), n) == fuzzy_matches(h, n),
        fuzzy_matches(h, ascii_upper_text(n)) == fuzzy_matches(h, n),
{
    lemma_lowercase_of_upper_text(h);
    lemma_lowercase_of_upper_text(n);
}

// ---------------------------------------------------------------------------
// What the main operations are for
// ---------------------------------------------------------------------------
proof fn lemma_matching_records_complete(c: CommandModel, rs: Seq<RecordModel>, j: int)
    requires
        0 <= j < rs.len(),
        record_matches(c, rs[j]),
    ensures
        matching_records(c, rs).contains(rs[j]),
    decreases rs.len(),
{
    let d = rs.drop_last();
    if j < rs.len() - 1 {
        assert(d[j] == rs[j]);
        lemma_matching_records_complete(c, d, j);
        let p = choose|p: int| 0 <= p < matching_records(c, d).len() && matching_records(c, d)[p]
            == rs[j];
        assert(matching_records(c, rs)[p] == rs[j]);
    } else {
        let m = matching_records(c, rs);
        assert(m[m.len() - 1] == rs[j]);
    }
}

/// Every command is offered for a group as soon as one record of the group
/// passes all its predicates, and the offer lists that record: no command
/// that applies is left out.
pub proof fn law_every_applicable_command_is_offered(cs: Seq<CommandModel>, rs: Seq<RecordModel>)
    ensures
        forall|i: int, j: int|
            0 <= i < cs.len() && 0 <= j < rs.len() && record_matches(#[trigger] cs[i], #[trigger] rs[j])
                ==> exists|k: int|
                0 <= k < group_matches(cs, rs).len() && (#[trigger] group_matches(cs, rs)[k]).command
                    == cs[i] && group_matches(cs, rs)[k].records.contains(rs[j]),
    decreases cs.len(),
{
    if cs.len() > 0 {
        let d = cs.drop_last();
        law_every_applicable_command_is_offered(d, rs);
        let g = group_matches(cs, rs);
        let gd = group_matches(d, rs);
        assert forall|i: int, j: int|
            0 <= i < cs.len() && 0 <= j < rs.len() && record_matches(#[trigger] cs[i], #[trigger] rs[j])
                implies exists|k: int|
            0 <= k < g.len() && (#[trigger] g[k]).command == cs[i] && g[k].records.contains(rs[j]) by {
            if i < cs.len() - 1 {
                assert(d[i] == cs[i]);
                assert(record_matches(d[i], rs[j]));
                let k = choose|k: int|
                    0 <= k < gd.len() && (#[trigger] gd[k]).command == d[i] && gd[k].records.contains(
                        rs[j],
                    );
                assert(g[k] == gd[k]);
            } else {
                lemma_matching_records_complete(cs.last(), rs, j);
                assert(cs.last() == cs[i]);
                assert(match_for(cs.last(), rs) is Some);
                assert(g[gd.len() as int] == match_for(cs.last(), rs)->Some_0);
            }
        }
    }
}

/// The text `s` as the body of a quoted string: every backslash and double
/// quote preceded by a backslash.
pub open spec fn escaped_text(s: Seq<char>) -> Seq<char>
    decreases s.len(),
{
    if s.len() == 0 {
        seq![]
    } else {
        (if s[0] == '\\' || s[0] == '"' {
            seq!['\\', s[0]]
        } else {
            seq![s[0]]
        }) + escaped_text(s.skip(1))
    }
}

proof fn lemma_unescape_escaped(s: Seq<char>)
    ensures
        unescape(escaped_text(s)) == Some(s),
    decreases s.len(),
{
    if s.len() > 0 {
        lemma_unescape_escaped(s.skip(1));
        let rest = escaped_text(s.skip(1));
        let e = escaped_text(s);
        if s[0] == '\\' || s[0] == '"' {
            assert(e == seq!['\\', s[0]] + rest);
            assert(e[0] == '\\' && e[1] == s[0]);
            assert(e.skip(2) =~= rest);
        } else {
            assert(e == seq![s[0]] + rest);
            assert(e[0] == s[0]);
            assert(e.skip(1) =~= rest);
        }
        assert(seq![s[0]] + s.skip(1) =~= s);
    }
}

/// Any text, quoted with its backslashes and double quotes escaped, reads
/// back as itself; so an escaped backslash reads as one backslash.
pub proof fn law_escaped_text_reads_back(s: Seq<char>)
    ensures
        parse_quoted(seq!['"'] + escaped_text(s) + seq!['"']) == Ok::<
            Seq<char>,
            crate::command_file::StringError,
        >(s),
        parse_quoted(seq!['"', '\\', '\\', '"']) == Ok::<Seq<char>, crate::command_file::StringError>(
            seq!['\\'],
        ),
{
    let v = seq!['"'] + escaped_text(s) + seq!['"'];
    assert(v.subrange(1, v.len() - 1) =~= escaped_text(s));
    lemma_unescape_escaped(s);
    let one = seq!['\\'];
    lemma_unescape_escaped(one);
    assert(one.skip(1) =~= Seq::<char>::empty());
    assert(escaped_text(one.skip(1)) == Seq::<char>::empty());
    assert(one[0] == '\\');
    assert(escaped_text(one) =~= seq!['\\', '\\']);
    let w = seq!['"', '\\', '\\', '"'];
    assert(w.subrange(1, w.len() - 1) =~= seq!['\\', '\\']);
}

/// A filter shows exactly the records of an enabled type whose searchable
/// text contains the trimmed query as a case-insensitive subsequence (every
/// record when the query is blank), and only records it was given.
pub proof fn law_filter_shows_exactly(e: Set<Seq<char>>, q: Seq<char>, rs: Seq<RecordModel>)
    ensures
        forall|k: int|
            0 <= k < rs.len() && e.contains(#[trigger] rs[k].service_type) && (trim(q).len() == 0
                || is_subsequence(lowercase_text(trim(q)), lowercase_text(searchable(rs[k]))))
                ==> shown_records(e, q, rs).contains(rs[k]),
        forall|k: int|
            0 <= k < shown_records(e, q, rs).len() ==> {
                let r = #[trigger] shown_records(e, q, rs)[k];
                &&& rs.contains(r)
                &&& e.contains(r.service_type)
                &&& (trim(q).len() == 0 || is_subsequence(
                    lowercase_text(trim(q)),
                    lowercase_text(searchable(r)),
                ))
            },
    decreases rs.len(),
{
    lemma_shown_records(e, q, rs);
    if rs.len() > 0 {
        law_filter_shows_exactly(e, q, rs.drop_last());
        let d = rs.drop_last();
        let sh = shown_records(e, q, rs);
        let sd = shown_records(e, q, d);
        assert forall|k: int| 0 <= k < sh.len() implies rs.contains(#[trigger] sh[k]) by {
            if k < sd.len() {
                assert(sh[k] == sd[k]);
                let p = choose|p: int| 0 <= p < d.len() && d[p] == sd[k];
                assert(rs[p] == d[p]);
            } else {
                assert(sh[k] == rs.last());
                assert(rs[rs.len() - 1] == rs.last());
            }
        }
    }
}

/// A record of an enabled type whose name alone contains the trimmed query
/// as a case-insensitive subsequence is shown.
pub proof fn law_filter_shows_name_matches(e: Set<Seq<char>>, q: Seq<char>, rs: Seq<RecordModel>, k: int)
    requires
        0 <= k < rs.len(),
        e.contains(rs[k].service_type),
        is_subsequence(lowercase_text(trim(q)), lowercase_text(rs[k].name)),
    ensures
        shown_records(e, q, rs).contains(rs[k]),
{
    let r = rs[k];
    let rest = searchable(r).skip(r.name.len() as int);
    assert(seq![] + r.name + rest =~= searchable(r));
    law_fuzzy_survives_surrounding_text(seq![], r.name, rest, trim(q));
    law_filter_shows_exactly(e, q, rs);
}

proof fn lemma_txt_table_keys(entries: Seq<crate::discovery::TxtEntry>)
    ensures
        forall|i: int|
            0 <= i < entries.len() ==> table_keys(txt_table(entries)).to_set().contains(
                (#[trigger] entries[i]).key@,
            ),
    decreases entries.len(),
{
    if entries.len() > 0 {
        let d = entries.drop_last();
        lemma_txt_table_keys(d);
        lemma_insert_keys(
            txt_table(d),
            entries.last().key@,
            crate::discovery::txt_value_of(crate::discovery::txt_entry_value(entries.last())),
        );
        assert forall|i: int| 0 <= i < entries.len() implies table_keys(
            txt_table(entries),
        ).to_set().contains((#[trigger] entries[i]).key@) by {
            if i < entries.len() - 1 {
                assert(d[i] == entries[i]);
            }
        }
    }
}

/// Every record made from a discovered service carries the service's whole
/// TXT table, whichever address it is for: each TXT key is there, on every
/// record alike.
pub proof fn law_every_record_carries_the_txt(s: DiscoveredServiceInfo)
    ensures
        forall|k: int|
            0 <= k < discovered_records(s).len() ==> (#[trigger] discovered_records(s)[k]).txt
                == txt_table(s.txt_records@),
        forall|k: int, i: int|
            0 <= k < discovered_records(s).len() && 0 <= i < s.txt_records@.len() ==> table_keys(
                (#[trigger] discovered_records(s)[k]).txt,
            ).to_set().contains((#[trigger] s.txt_records@[i]).key@),
{
    lemma_txt_table_keys(s.txt_records@);
}

/// `--config-dir` is repeatable wherever it is accepted, at the top level
/// and after `list-commands`; and the positions the settings are read from
/// name the options they are meant to.
pub proof fn law_config_dir_is_repeatable()
    ensures
        forall|i: int|
            0 <= i < cli_definition_model().args.len() && (#[trigger] cli_definition_model().args[i]).id
                == "config-dir"@ ==> cli_definition_model().args[i].kind == ArgKind::Repeated,
        forall|k: int, i: int|
            0 <= k < cli_definition_model().subcommands.len() && 0 <= i < cli_definition_model().subcommands[k].args.len()
                && (#[trigger] cli_definition_model().subcommands[k].args[i]).id == "config-dir"@
                ==> cli_definition_model().subcommands[k].args[i].kind == ArgKind::Repeated,
        cli_definition_model().args[DOMAIN_ARG as int].id == "domain"@,
        cli_definition_model().args[CONFIG_DIR_ARG as int].id == "config-dir"@,
        cli_definition_model().args[SERVICE_TYPE_ARG as int].id == "service-type"@,
        cli_definition_model().args[FAKE_DISCOVERY_ARG as int].id == "fake-discovery"@,
        cli_definition_model().args[FAKE_DISCOVERY_ARG as int].kind == ArgKind::Flag,
        cli_definition_model().subcommands[LIST_COMMANDS_SUB as int].name == "list-commands"@,
        cli_definition_model().subcommands[LIST_COMMANDS_SUB as int].args[LIST_COMMANDS_DIR_ARG as int].id
            == "config-dir"@,
{
    reveal_strlit("domain");
    reveal_strlit("config-dir");
    reveal_strlit("service-type");
    reveal_strlit("fake-discovery");
    let d = cli_definition_model();
    assert(d.args[0].id.len() == 6 && d.args[1].id.len() == 10 && d.args[2].id.len() == 12
        && d.args[3].id.len() == 14);
    assert forall|i: int|
        0 <= i < d.args.len() && (#[trigger] d.args[i]).id == "config-dir"@ implies d.args[i].kind
        == ArgKind::Repeated by {
        assert(d.args[i].id.len() == 10);
    }
}

proof fn lemma_matching_records_filter(c: CommandModel, rs: Seq<RecordModel>)
    ensures
        matching_records(c, rs) == rs.filter(|r: RecordModel| record_matches(c, r)),
    decreases rs.len(),
{
    reveal(Seq::filter);
    if rs.len() > 0 {
        lemma_matching_records_filter(c, rs.drop_last());
        let f = rs.drop_last().filter(|r: RecordModel| record_matches(c, r));
        if record_matches(c, rs.last()) {
            assert(f + seq![rs.last()] =~= f.push(rs.last()));
        } else {
            assert(f + seq![] =~= f);
        }
    }
}

/// Each offer lists exactly the records of the group that pass all of its
/// command's predicates, in the group's order; it asks for an instance to
/// be chosen exactly when one of the command's predicates reads the
/// address or port, or its command line names `{address}` or `{port}`.
pub proof fn law_offer_records_and_instance_choice(cs: Seq<CommandModel>, rs: Seq<RecordModel>)
    ensures
        forall|k: int|
            0 <= k < group_matches(cs, rs).len() ==> {
                let m = #[trigger] group_matches(cs, rs)[k];
                &&& m.records == rs.filter(|r: RecordModel| record_matches(m.command, r))
                &&& m.needs_instance <==> ((exists|p: int|
                    0 <= p < m.command.predicates.len() && (#[trigger] m.command.predicates[p].field
                        == "address"@ || m.command.predicates[p].field == "port"@))
                    || crate::text::contains_text(m.command.action.command, "{address}"@)
                    || crate::text::contains_text(m.command.action.command, "{port}"@))
            },
    decreases cs.len(),
{
    if cs.len() > 0 {
        let d = cs.drop_last();
        law_offer_records_and_instance_choice(d, rs);
        lemma_matching_records_filter(cs.last(), rs);
        let g = group_matches(cs, rs);
        let gd = group_matches(d, rs);
        assert forall|k: int| 0 <= k < g.len() implies {
            let m = #[trigger] g[k];
            &&& m.records == rs.filter(|r: RecordModel| record_matches(m.command, r))
            &&& m.needs_instance <==> ((exists|p: int|
                0 <= p < m.command.predicates.len() && (#[trigger] m.command.predicates[p].field
                    == "address"@ || m.command.predicates[p].field == "port"@))
                || crate::text::contains_text(m.command.action.command, "{address}"@)
                || crate::text::contains_text(m.command.action.command, "{port}"@))
        } by {
            if k < gd.len() {
                assert(g[k] == gd[k]);
            } else {
                assert(g[k] == match_for(cs.last(), rs)->Some_0);
            }
        }
    }
}

proof fn lemma_shown_records_filter(e: Set<Seq<char>>, q: Seq<char>, rs: Seq<RecordModel>)
    ensures
        shown_records(e, q, rs) == rs.filter(
            |r: RecordModel|
                e.contains(r.service_type) && (trim(q).len() == 0 || is_subsequence(
                    lowercase_text(trim(q)),
                    lowercase_text(searchable(r)),
                )),
        ),
    decreases rs.len(),
{
    reveal(Seq::filter);
    if rs.len() > 0 {
        lemma_shown_records_filter(e, q, rs.drop_last());
        let f = rs.drop_last().filter(
            |r: RecordModel|
                e.contains(r.service_type) && (trim(q).len() == 0 || is_subsequence(
                    lowercase_text(trim(q)),
                    lowercase_text(searchable(r)),
                )),
        );
        if shown(e, q, rs.last()) {
            assert(f + seq![rs.last()] =~= f.push(rs.last()));
        } else {
            assert(f + seq![] =~= f);
        }
    }
}

/// What a filter shows is the given records, in their order, that have an
/// enabled type and whose searchable text contains the trimmed query as a
/// case-insensitive subsequence (every such record when the query is blank).
pub proof fn law_filter_keeps_order(e: Set<Seq<char>>, q: Seq<char>, rs: Seq<RecordModel>)
    ensures
        shown_records(e, q, rs) == rs.filter(
            |r: RecordModel|
                e.contains(r.service_type) && (trim(q).len() == 0 || is_subsequence(
                    lowercase_text(trim(q)),
                    lowercase_text(searchable(r)),
                )),
        ),
{
    lemma_shown_records_filter(e, q, rs);
}

/// A needle matches every haystack it can be cut out of: removing any run
/// of characters `x` from a text leaves a needle that still matches the
/// text, gaps and all.
pub proof fn law_fuzzy_matches_across_gaps(a: Seq<char>, x: Seq<char>, b: Seq<char>)
    ensures
        fuzzy_matches(a + x + b, a + b),
{
    lemma_lowercase_concat(a, x);
    lemma_lowercase_concat(a + x, b);
    lemma_lowercase_concat(a, b);
    let la = lowercase_text(a);
    let lx = lowercase_text(x);
    let lb = lowercase_text(b);
    let hay = lowercase_text(a + x + b);
    let needle = lowercase_text(a + b);
    assert(hay == la + lx + lb);
    assert(needle == la + lb);
    let f = Seq::new(needle.len(), |i: int| if i < la.len() { i } else { i + lx.len() });
    assert forall|i: int| 0 <= i < f.len() implies 0 <= #[trigger] f[i] < hay.len() && hay[f[i]]
        == needle[i] by {
        if i < la.len() {
            assert(hay[i] == la[i]);
            assert(needle[i] == la[i]);
        } else {
            assert(hay[i + lx.len()] == lb[i - la.len()]);
            assert(needle[i] == lb[i - la.len()]);
        }
    }
    assert(embedding(needle, hay, f));
}

/// The records made from a discovered service with addresses follow its
/// addresses in order: record `i` is for address `i`, with the service's
/// name, type and domain, its host name and port (blank and zero meaning
/// unknown).
pub proof fn law_records_follow_addresses(s: DiscoveredServiceInfo)
    ensures
        s.addresses@.len() > 0 ==> discovered_records(s).len() == s.addresses@.len(),
        forall|i: int|
            0 <= i < s.addresses@.len() ==> {
                let r = #[trigger] discovered_records(s)[i];
                &&& r.address == clean_address(Some(s.addresses@[i]@))
                &&& r.name == s.name@
                &&& r.service_type == s.service_type@
                &&& r.domain == s.domain@
                &&& r.hostname == clean_hostname(Some(s.host_name@))
                &&& r.port == clean_port(Some(s.port))
            },
        s.addresses@.len() == 0 ==> discovered_records(s).len() == 1 && discovered_records(s)[0].address
            is None,
{
}

} // verus!
