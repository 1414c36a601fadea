//! Which discovered records are shown: a checklist of service types and a
//! fuzzy text search.
use vstd::prelude::*;

use crate::service::{searchable, GroupingMode, RecordModel, ServiceRecord};
use crate::table::TextSet;
use crate::text::{append_chars, chars_of, text_lt, trim, trim_chars, string_from_chars};

verus! {

// ---------------------------------------------------------------------------
// Fuzzy matching
// ---------------------------------------------------------------------------
/// The lowercase mapping of one character (`char::to_lowercase`), which may
/// be several characters long.
pub uninterp spec fn lowercase_of(c: char) -> Seq<char>;

/// `char::to_lowercase`, collected; the mapping is Unicode's.
#[verifier::external_body]
fn char_to_lowercase(c: char) -> (r: Vec<char>)
    ensures
        r@ == lowercase_of(c),
{
    c.to_lowercase().collect()
}

/// A text with every character replaced by its lowercase mapping.
pub open spec fn lowercase_text(s: Seq<char>) -> Seq<char>
    decreases s.len(),
{
    if s.len() == 0 {
        seq![]
    } else {
        lowercase_text(s.drop_last()) + lowercase_of(s.last())
    }
}

/// `f` places the characters of `a` at increasing positions of `b`.
pub open spec fn embedding(a: Seq<char>, b: Seq<char>, f: Seq<int>) -> bool {
    &&& f.len() == a.len()
    &&& forall|i: int| 0 <= i < f.len() ==> 0 <= #[trigger] f[i] < b.len() && b[f[i]] == a[i]
    &&& forall|i: int, j: int| 0 <= i < j < f.len() ==> #[trigger] f[i] < #[trigger] f[j]
}

/// `a` is a subsequence of `b`.
pub open spec fn is_subsequence(a: Seq<char>, b: Seq<char>) -> bool {
    exists|f: Seq<int>| embedding(a, b, f)
}

/// Whether every character of `needle` occurs in `haystack`, in order,
/// ignoring case.
pub open spec fn fuzzy_matches(haystack: Seq<char>, needle: Seq<char>) -> bool {
    is_subsequence(lowercase_text(needle), lowercase_text(haystack))
}

/// A text in lowercase.
fn lowercase_chars(s: &str) -> (r: Vec<char>)
    ensures
        r@ == lowercase_text(s@),
{
    let cs = chars_of(s);
    let mut out: Vec<char> = Vec::new();
    let mut i: usize = 0;
    while i < cs.len()
        invariant
            i <= cs@.len(),
            cs@ == s@,
            out@ == lowercase_text(cs@.take(i as int)),
        decreases cs@.len() - i,
    {
        let low = char_to_lowercase(cs[i]);
        append_chars(&mut out, low.as_slice());
        assert(cs@.take(i + 1).drop_last() == cs@.take(i as int));
        i = i + 1;
    }
    assert(cs@.take(i as int) == cs@);
    out
}

/// Whether `needle` is a subsequence of `haystack`: its characters occur
/// in `haystack` in order (the earliest occurrence of each is taken).
pub fn is_subsequence_chars(needle: &[char], haystack: &[char]) -> (r: bool)
    ensures
        r == is_subsequence(needle@, haystack@),
{
    let h = haystack;
    let n = needle;
    let mut j: usize = 0;
    let mut k: usize = 0;
    let ghost mut f: Seq<int> = seq![];
    while k < n.len()
        invariant
            k <= n@.len(),
            j <= h@.len(),
            n@ == needle@,
            h@ == haystack@,
            embedding(n@.take(k as int), h@, f),
            k > 0 ==> f[k - 1] == j - 1,
            k == 0 ==> j == 0,
            // greedy positions are the earliest possible
            forall|g: Seq<int>|
                #![trigger embedding(n@.take(k as int), h@, g)]
                embedding(n@.take(k as int), h@, g) && k > 0 ==> g[k - 1] >= j - 1,
        decreases n@.len() - k,
    {
        let target = n[k];
        let ghost j0 = j;
        while j < h.len() && h[j] != target
            invariant
                j0 <= j <= h@.len(),
                forall|p: int| j0 <= p < j ==> h@[p] != target,
            decreases h@.len() - j,
        {
            j = j + 1;
        }
        if j == h.len() {
            proof {
                assert forall|g: Seq<int>| !embedding(n@, h@, g) by {
                    if embedding(n@, h@, g) {
                        let gk = g.take(k as int);
                        assert(embedding(n@.take(k as int), h@, gk));
                        if k > 0 {
                            assert(g[k - 1] < g[k as int]);
                        }
                        assert(h@[g[k as int]] == n@[k as int]);
                    }
                }
                assert(!is_subsequence(n@, h@));
            }
            return false;
        }
        proof {
            let nf = f.push(j as int);
            assert(n@.take(k + 1) == n@.take(k as int).push(target));
            assert(embedding(n@.take(k + 1), h@, nf));
            assert forall|g: Seq<int>|
                #![trigger embedding(n@.take(k + 1), h@, g)]
                embedding(n@.take(k + 1), h@, g) implies g[k as int] >= j by {
                let gk = g.take(k as int);
                assert(embedding(n@.take(k as int), h@, gk));
                if k > 0 {
                    assert(g[k - 1] < g[k as int]);
                    assert(gk[k - 1] == g[k - 1]);
                }
                assert(h@[g[k as int]] == target);
            }
            f = nf;
        }
        j = j + 1;
        k = k + 1;
    }
    assert(n@.take(k as int) == n@);
    true
}

/// Whether every character of `needle` occurs in `haystack`, in order,
/// ignoring case.
pub fn fuzzy_match(haystack: &str, needle: &str) -> (r: bool)
    ensures
        r == fuzzy_matches(haystack@, needle@),
{
    let h = lowercase_chars(haystack);
    let n = lowercase_chars(needle);
    is_subsequence_chars(n.as_slice(), h.as_slice())
}

// ---------------------------------------------------------------------------
// The filter
// ---------------------------------------------------------------------------
/// The service types of a sequence of records.
pub open spec fn types_of(rs: Seq<RecordModel>) -> Set<Seq<char>> {
    Set::new(|t: Seq<char>| exists|i: int| 0 <= i < rs.len() && #[trigger] rs[i].service_type == t)
}

/// Whether a record is shown by a filter with these settings.
pub open spec fn shown(enabled: Set<Seq<char>>, query: Seq<char>, r: RecordModel) -> bool {
    &&& enabled.contains(r.service_type)
    &&& (trim(query).len() == 0 || fuzzy_matches(searchable(r), trim(query)))
}

/// The records a filter shows, in their order.
pub open spec fn shown_records(enabled: Set<Seq<char>>, query: Seq<char>, rs: Seq<RecordModel>) -> Seq<
    RecordModel,
>
    decreases rs.len(),
{
    if rs.len() == 0 {
        seq![]
    } else {
        shown_records(enabled, query, rs.drop_last()) + if shown(enabled, query, rs.last()) {
            seq![rs.last()]
        } else {
            seq![]
        }
    }
}

pub open spec fn records_of(v: Seq<ServiceRecord>) -> Seq<RecordModel> {
    v.map_values(|r: ServiceRecord| r@)
}

/// The text query, the enabled and disabled service types, and how rows are
/// grouped.
#[derive(Debug)]
pub struct FilterState {
    pub text_query: String,
    pub enabled_service_types: TextSet,
    pub disabled_service_types: TextSet,
    pub grouping: GroupingMode,
}

impl Default for FilterState {
    fn default() -> (f: Self)
        ensures
            f.text_query@ == Seq::<char>::empty(),
            f.enabled_service_types@ == Set::<Seq<char>>::empty(),
            f.disabled_service_types@ == Set::<Seq<char>>::empty(),
            f.grouping == GroupingMode::LogicalService,
    {
        FilterState {
            text_query: String::new(),
            enabled_service_types: TextSet::new(),
            disabled_service_types: TextSet::new(),
            grouping: GroupingMode::LogicalService,
        }
    }
}

impl FilterState {
    /// Enables every type of `records` that the user has not disabled.
    pub fn sync_service_types(&mut self, records: &[ServiceRecord])
        ensures
            final(self).enabled_service_types@ == old(self).enabled_service_types@.union(
                types_of(records_of(records@)).difference(old(self).disabled_service_types@),
            ),
            final(self).disabled_service_types@ == old(self).disabled_service_types@,
            final(self).text_query@ == old(self).text_query@,
            final(self).grouping == old(self).grouping,
    {
        let ghost rs = records_of(records@);
        let ghost e0 = self.enabled_service_types@;
        let ghost d0 = self.disabled_service_types@;
        let mut i: usize = 0;
        assert(e0.union(types_of(rs.take(0)).difference(d0)) =~= e0);
        while i < records.len()
            invariant
                i <= records@.len(),
                rs == records_of(records@),
                self.disabled_service_types@ == d0,
                self.text_query@ == old(self).text_query@,
                self.grouping == old(self).grouping,
                self.enabled_service_types@ == e0.union(types_of(rs.take(i as int)).difference(d0)),
            decreases records@.len() - i,
        {
            let t = records[i].service_type.as_str();
            assert(rs[i as int].service_type == t@);
            if !self.disabled_service_types.contains(t) {
                self.enabled_service_types.insert(t);
            }
            proof {
                assert forall|x: Seq<char>| #[trigger] types_of(rs.take(i + 1)).contains(x) <==> (
                types_of(rs.take(i as int)).contains(x) || x == t@) by {
                    if types_of(rs.take(i + 1)).contains(x) {
                        let p = choose|p: int|
                            0 <= p < rs.take(i + 1).len() && #[trigger] rs.take(i + 1)[p].service_type == x;
                        if p < i {
                            assert(rs.take(i as int)[p].service_type == x);
                        }
                    }
                    if types_of(rs.take(i as int)).contains(x) {
                        let p = choose|p: int|
                            0 <= p < rs.take(i as int).len() && #[trigger] rs.take(i as int)[p].service_type
                                == x;
                        assert(rs.take(i + 1)[p].service_type == x);
                    }
                    if x == t@ {
                        assert(rs.take(i + 1)[i as int].service_type == x);
                    }
                }
                assert(self.enabled_service_types@ =~= e0.union(
                    types_of(rs.take(i + 1)).difference(d0),
                ));
            }
            i = i + 1;
        }
        assert(rs.take(i as int) == rs);
    }

    /// The distinct service types of `records`, in ascending order.
    pub fn discovered_types(records: &[ServiceRecord]) -> (r: Vec<String>)
        ensures
            r@.map_values(|s: String| s@).to_set() == types_of(records_of(records@)),
            forall|i: int, j: int|
                0 <= i < j < r@.len() ==> text_lt(#[trigger] r@[i]@, #[trigger] r@[j]@),
    {
        let ghost rs = records_of(records@);
        let mut set = TextSet::new();
        let mut i: usize = 0;
        assert(types_of(rs.take(0)) =~= Set::<Seq<char>>::empty());
        while i < records.len()
            invariant
                i <= records@.len(),
                rs == records_of(records@),
                set@ == types_of(rs.take(i as int)),
            decreases records@.len() - i,
        {
            let t = records[i].service_type.as_str();
            assert(rs[i as int].service_type == t@);
            set.insert(t);
            proof {
                assert forall|x: Seq<char>| #[trigger] types_of(rs.take(i + 1)).contains(x) <==> (
                types_of(rs.take(i as int)).contains(x) || x == t@) by {
                    if types_of(rs.take(i + 1)).contains(x) {
                        let p = choose|p: int|
                            0 <= p < rs.take(i + 1).len() && #[trigger] rs.take(i + 1)[p].service_type == x;
                        if p < i {
                            assert(rs.take(i as int)[p].service_type == x);
                        }
                    }
                    if types_of(rs.take(i as int)).contains(x) {
                        let p = choose|p: int|
                            0 <= p < rs.take(i as int).len() && #[trigger] rs.take(i as int)[p].service_type
                                == x;
                        assert(rs.take(i + 1)[p].service_type == x);
                    }
                    if x == t@ {
                        assert(rs.take(i + 1)[i as int].service_type == x);
                    }
                }
                assert(set@ =~= types_of(rs.take(i + 1)));
            }
            i = i + 1;
        }
        assert(rs.take(i as int) == rs);
        let out = set.to_vec();
        proof {
            assert forall|a: int, b: int| 0 <= a < b < out@.len() implies text_lt(
                #[trigger] out@[a]@,
                #[trigger] out@[b]@,
            ) by {
                assert(out@.map_values(|s: String| s@)[a] == out@[a]@);
                assert(out@.map_values(|s: String| s@)[b] == out@[b]@);
            }
        }
        out
    }

    /// Flips one service type between enabled and disabled.
    pub fn toggle_service_type(&mut self, service_type: &str)
        ensures
            old(self).enabled_service_types@.contains(service_type@) ==> {
                &&& final(self).enabled_service_types@ == old(
                    self,
                ).enabled_service_types@.remove(service_type@)
                &&& final(self).disabled_service_types@ == old(
                    self,
                ).disabled_service_types@.insert(service_type@)
            },
            !old(self).enabled_service_types@.contains(service_type@) ==> {
                &&& final(self).enabled_service_types@ == old(
                    self,
                ).enabled_service_types@.insert(service_type@)
                &&& final(self).disabled_service_types@ == old(
                    self,
                ).disabled_service_types@.remove(service_type@)
            },
            final(self).text_query@ == old(self).text_query@,
            final(self).grouping == old(self).grouping,
    {
        if self.enabled_service_types.remove(service_type) {
            self.disabled_service_types.insert(service_type);
        } else {
            self.enabled_service_types.insert(service_type);
            self.disabled_service_types.remove(service_type);
        }
    }

    /// Empties the text query.
    pub fn clear_text(&mut self)
        ensures
            final(self).text_query@ == Seq::<char>::empty(),
            final(self).enabled_service_types@ == old(self).enabled_service_types@,
            final(self).disabled_service_types@ == old(self).disabled_service_types@,
            final(self).grouping == old(self).grouping,
    {
        self.text_query = String::new();
    }

    /// The records of an enabled type that the (trimmed) query matches, in
    /// their order; an empty query matches everything.
    pub fn apply(&self, records: &[ServiceRecord]) -> (r: Vec<ServiceRecord>)
        ensures
            records_of(r@) == shown_records(
                self.enabled_service_types@,
                self.text_query@,
                records_of(records@),
            ),
    {
        let ghost rs = records_of(records@);
        let q = chars_of(self.text_query.as_str());
        let tq = trim_chars(q.as_slice());
        let query = string_from_chars(tq.as_slice());
        let mut out: Vec<ServiceRecord> = Vec::new();
        let mut i: usize = 0;
        assert(records_of(out@) =~= shown_records(
            self.enabled_service_types@,
            self.text_query@,
            rs.take(0),
        ));
        while i < records.len()
            invariant
                i <= records@.len(),
                rs == records_of(records@),
                query@ == trim(self.text_query@),
                tq@ == trim(self.text_query@),
                records_of(out@) == shown_records(
                    self.enabled_service_types@,
                    self.text_query@,
                    rs.take(i as int),
                ),
            decreases records@.len() - i,
        {
            let record = &records[i];
            assert(rs.take(i + 1).drop_last() == rs.take(i as int));
            assert(rs.take(i + 1).last() == record@);
            let ghost before = records_of(out@);
            if self.enabled_service_types.contains(record.service_type.as_str()) && (tq.len() == 0
                || fuzzy_match(record.searchable_text().as_str(), query.as_str())) {
                out.push(record.clone());
                assert(records_of(out@) =~= before + seq![record@]);
            } else {
                assert(records_of(out@) =~= before + seq![]);
            }
            i = i + 1;
        }
        assert(rs.take(i as int) == rs);
        out
    }
}

} // verus!
