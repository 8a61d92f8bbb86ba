//! Incremental fuzzy search over the registry, with an alphabetical view.
use vstd::prelude::*;
use crate::text::{chars_of, eq_ci, fold_char, fold_code, range_eq_ci, seq_eq_ci, chars_eq_ci};
use crate::host::{destination_of, hosts_view, HostRecord, HostView};
use crate::registry::Registry;

verus! {

broadcast use vstd::seq_lib::group_to_multiset_ensures;

/// The text a query is matched against: the alias, then the address.
pub open spec fn target_of(h: HostView) -> Seq<char> {
    h.alias + destination_of(h)
}

/// The leftmost greedy match of `q[i..]` in `t[j..]`: where the match of
/// `q[0]` began and one past the match of the last character.
pub open spec fn scan(q: Seq<char>, t: Seq<char>, i: int, j: int, start: int) -> Option<(int, int)>
    decreases t.len() - j,
{
    if i >= q.len() {
        Some((start, j))
    } else if j < 0 || j >= t.len() {
        None
    } else if eq_ci(q[i], t[j]) {
        scan(q, t, i + 1, j + 1, if i == 0 { j } else { start })
    } else {
        scan(q, t, i, j + 1, start)
    }
}

/// The span of the leftmost greedy match of `q` in `t`, if `q` occurs in
/// `t` as a subsequence up to ASCII case.
pub open spec fn fuzzy_match(q: Seq<char>, t: Seq<char>) -> Option<(int, int)> {
    scan(q, t, 0, 0, 0)
}

/// Host `h` matches query `q`.
pub open spec fn matches(q: Seq<char>, h: HostView) -> bool {
    fuzzy_match(q, target_of(h)) is Some
}

/// `m` places each character of `q`, in order, on an equal one of `t`.
pub open spec fn embeds(q: Seq<char>, t: Seq<char>, m: Seq<int>) -> bool {
    &&& m.len() == q.len()
    &&& forall|k: int| 0 <= k < q.len() ==> 0 <= #[trigger] m[k] < t.len() && eq_ci(q[k], t[m[k]])
    &&& forall|k: int, l: int| 0 <= k < l < q.len() ==> m[k] < m[l]
}

/// `q` occurs in `t` as a subsequence, up to ASCII case.
pub open spec fn is_ci_subsequence(q: Seq<char>, t: Seq<char>) -> bool {
    exists|m: Seq<int>| embeds(q, t, m)
}

/// The hosts of `s` that match `q`, in order.
pub open spec fn matching(s: Seq<HostView>, q: Seq<char>) -> Seq<HostView>
    decreases s.len(),
{
    if s.len() == 0 {
        Seq::empty()
    } else if matches(q, s.last()) {
        matching(s.drop_last(), q).push(s.last())
    } else {
        matching(s.drop_last(), q)
    }
}

/// An alias as case-folded character codes: the alphabetical sort key.
pub open spec fn name_key(a: Seq<char>) -> Seq<u32> {
    a.map_values(|c: char| fold_code(c))
}

/// `q` is a prefix of `a`, up to ASCII case.
pub open spec fn prefix_ci(q: Seq<char>, a: Seq<char>) -> bool {
    q.len() <= a.len() && seq_eq_ci(a.subrange(0, q.len() as int), q)
}

/// 0 for an exact match of the alias, 1 for a prefix of it, else 2.
pub open spec fn tier(q: Seq<char>, h: HostView) -> int {
    if seq_eq_ci(h.alias, q) {
        0
    } else if prefix_ci(q, h.alias) {
        1
    } else {
        2
    }
}

/// The sort key: by name alone, or by tier, match length, match start and
/// name.
pub open spec fn rank_key(q: Seq<char>, h: HostView, by_name: bool) -> (int, int, int, Seq<u32>) {
    if by_name {
        (0, 0, 0, name_key(h.alias))
    } else {
        match fuzzy_match(q, target_of(h)) {
            Some((s, e)) => (tier(q, h), e - s, s, name_key(h.alias)),
            None => (tier(q, h), 0, 0, name_key(h.alias)),
        }
    }
}

/// Lexicographic order on code sequences from index `i` on.
pub open spec fn lex_le(a: Seq<u32>, b: Seq<u32>, i: int) -> bool
    decreases a.len() - i,
{
    if i < 0 || i >= a.len() {
        true
    } else if i >= b.len() {
        false
    } else if a[i] < b[i] {
        true
    } else if a[i] > b[i] {
        false
    } else {
        lex_le(a, b, i + 1)
    }
}

/// The order of sort keys, field by field.
pub open spec fn key_le(a: (int, int, int, Seq<u32>), b: (int, int, int, Seq<u32>)) -> bool {
    a.0 < b.0 || (a.0 == b.0 && (a.1 < b.1 || (a.1 == b.1 && (a.2 < b.2 || (a.2 == b.2
        && lex_le(a.3, b.3, 0))))))
}

/// Keys that appear in order.
pub open spec fn keys_sorted(q: Seq<char>, s: Seq<HostView>, by_name: bool) -> bool {
    forall|a: int, b: int|
        0 <= a < b < s.len() ==> key_le(rank_key(q, s[a], by_name), rank_key(q, s[b], by_name))
}

/// What `filter` returns for `reg`, `q` and the view mode: with no query and
/// no sort, every host in registry order; otherwise exactly the matching
/// hosts, ordered by their sort keys.
pub open spec fn filter_post(reg: Seq<HostView>, q: Seq<char>, by_name: bool, r: Seq<HostView>) -> bool {
    if q.len() == 0 && !by_name {
        r == reg
    } else {
        &&& r.to_multiset() == matching(reg, q).to_multiset()
        &&& keys_sorted(q, r, by_name)
    }
}

proof fn lemma_lex_total(a: Seq<u32>, b: Seq<u32>, i: int)
    requires
        0 <= i,
    ensures
        lex_le(a, b, i) || lex_le(b, a, i),
    decreases a.len() - i,
{
    if i < a.len() && i < b.len() && a[i] == b[i] {
        lemma_lex_total(a, b, i + 1);
    }
}

proof fn lemma_lex_trans(a: Seq<u32>, b: Seq<u32>, c: Seq<u32>, i: int)
    requires
        0 <= i,
        lex_le(a, b, i),
        lex_le(b, c, i),
    ensures
        lex_le(a, c, i),
    decreases a.len() - i,
{
    if i < a.len() && i < b.len() && i < c.len() && a[i] == b[i] && b[i] == c[i] {
        lemma_lex_trans(a, b, c, i + 1);
    }
}

/// Any two keys are ordered one way or the other.
pub proof fn lemma_key_total(a: (int, int, int, Seq<u32>), b: (int, int, int, Seq<u32>))
    ensures
        key_le(a, b) || key_le(b, a),
{
    lemma_lex_total(a.3, b.3, 0);
}

/// The order of keys is transitive.
pub proof fn lemma_key_trans(
    a: (int, int, int, Seq<u32>),
    b: (int, int, int, Seq<u32>),
    c: (int, int, int, Seq<u32>),
)
    requires
        key_le(a, b),
        key_le(b, c),
    ensures
        key_le(a, c),
{
    if a.0 == b.0 && b.0 == c.0 && a.1 == b.1 && b.1 == c.1 && a.2 == b.2 && b.2 == c.2 {
        lemma_lex_trans(a.3, b.3, c.3, 0);
    }
}

proof fn lemma_scan_embeds(q: Seq<char>, t: Seq<char>, i: int, j: int, start: int) -> (m: Seq<int>)
    requires
        0 <= i <= q.len(),
        0 <= j,
        scan(q, t, i, j, start) is Some,
    ensures
        m.len() == q.len() - i,
        forall|k: int| 0 <= k < m.len() ==> j <= #[trigger] m[k] < t.len() && eq_ci(q[i + k], t[m[k]]),
        forall|k: int, l: int| 0 <= k < l < m.len() ==> m[k] < m[l],
    decreases t.len() - j,
{
    if i >= q.len() {
        Seq::empty()
    } else if eq_ci(q[i], t[j]) {
        let rest = lemma_scan_embeds(q, t, i + 1, j + 1, if i == 0 { j } else { start });
        let m = seq![j] + rest;
        assert forall|k: int| 0 < k < m.len() implies #[trigger] m[k] == rest[k - 1] by {}
        m
    } else {
        lemma_scan_embeds(q, t, i, j + 1, start)
    }
}

/// A host that matches a query holds it as a subsequence of its alias and
/// address, up to ASCII case.
pub proof fn lemma_match_is_subsequence(q: Seq<char>, h: HostView)
    requires
        matches(q, h),
    ensures
        is_ci_subsequence(q, target_of(h)),
{
    let m = lemma_scan_embeds(q, target_of(h), 0, 0, 0);
    assert(embeds(q, target_of(h), m));
}

proof fn lemma_matching_contains(s: Seq<HostView>, q: Seq<char>, h: HostView)
    requires
        matching(s, q).contains(h),
    ensures
        matches(q, h),
    decreases s.len(),
{
    if s.len() > 0 {
        if matches(q, s.last()) && h != s.last() {
            let p = matching(s.drop_last(), q);
            let k = choose|k: int| 0 <= k < p.push(s.last()).len() && p.push(s.last())[k] == h;
            assert(p[k] == h);
            lemma_matching_contains(s.drop_last(), q, h);
        } else if !matches(q, s.last()) {
            lemma_matching_contains(s.drop_last(), q, h);
        }
    }
}

/// Every host that a non-empty query returns holds the query as a
/// subsequence of its alias and address, up to ASCII case.
pub proof fn lemma_results_hold_query(reg: Seq<HostView>, q: Seq<char>, by_name: bool, r: Seq<HostView>)
    requires
        q.len() > 0,
        filter_post(reg, q, by_name, r),
    ensures
        forall|k: int| 0 <= k < r.len() ==> is_ci_subsequence(q, target_of(#[trigger] r[k])),
{
    assert forall|k: int| 0 <= k < r.len() implies is_ci_subsequence(q, target_of(#[trigger] r[k])) by {
        assert(r.contains(r[k]));
        assert(r.to_multiset().count(r[k]) > 0);
        assert(matching(reg, q).to_multiset().count(r[k]) > 0);
        lemma_matching_contains(reg, q, r[k]);
        lemma_match_is_subsequence(q, r[k]);
    }
}

/// Every host matches the empty query.
pub proof fn lemma_empty_query_matches_all(s: Seq<HostView>)
    ensures
        matching(s, Seq::empty()) == s,
    decreases s.len(),
{
    if s.len() > 0 {
        lemma_empty_query_matches_all(s.drop_last());
        assert(s.drop_last().push(s.last()) =~= s);
    }
}

/// With the empty query every host is returned: in registry order when no
/// sort is asked for, else ordered by alias up to ASCII case.
pub proof fn lemma_empty_query(reg: Seq<HostView>, by_name: bool, r: Seq<HostView>)
    requires
        filter_post(reg, Seq::empty(), by_name, r),
    ensures
        !by_name ==> r == reg,
        by_name ==> r.to_multiset() == reg.to_multiset(),
        by_name ==> forall|a: int, b: int|
            0 <= a < b < r.len() ==> lex_le(name_key(r[a].alias), name_key(r[b].alias), 0),
{
    lemma_empty_query_matches_all(reg);
    if by_name {
        assert forall|a: int, b: int| 0 <= a < b < r.len() implies lex_le(
            name_key(r[a].alias),
            name_key(r[b].alias),
            0,
        ) by {
            assert(key_le(rank_key(Seq::empty(), r[a], true), rank_key(Seq::empty(), r[b], true)));
        }
    }
}

/// A computed sort key.
pub struct RankKey {
    pub tier: u8,
    pub span: usize,
    pub start: usize,
    pub name: Vec<u32>,
}

impl View for RankKey {
    type V = (int, int, int, Seq<u32>);

    open spec fn view(&self) -> (int, int, int, Seq<u32>) {
        (self.tier as int, self.span as int, self.start as int, self.name@)
    }
}

fn lex_le_exec(a: &Vec<u32>, b: &Vec<u32>) -> (r: bool)
    ensures
        r == lex_le(a@, b@, 0),
{
    let mut i: usize = 0;
    while i < a.len()
        invariant
            i <= a.len(),
            lex_le(a@, b@, i as int) == lex_le(a@, b@, 0),
        decreases a.len() - i,
    {
        if i >= b.len() {
            return false;
        }
        if a[i] < b[i] {
            return true;
        }
        if a[i] > b[i] {
            return false;
        }
        i = i + 1;
    }
    true
}

fn key_le_exec(a: &RankKey, b: &RankKey) -> (r: bool)
    ensures
        r == key_le(a@, b@),
{
    if a.tier != b.tier {
        return a.tier < b.tier;
    }
    if a.span != b.span {
        return a.span < b.span;
    }
    if a.start != b.start {
        return a.start < b.start;
    }
    lex_le_exec(&a.name, &b.name)
}

/// The leftmost greedy match of `q` in `t`.
pub fn fuzzy_find(q: &Vec<char>, t: &Vec<char>) -> (r: Option<(usize, usize)>)
    ensures
        match r {
            Some((s, e)) => s <= e && fuzzy_match(q@, t@) == Some((s as int, e as int)),
            None => fuzzy_match(q@, t@) is None,
        },
{
    let mut i: usize = 0;
    let mut j: usize = 0;
    let mut start: usize = 0;
    while i < q.len()
        invariant
            i <= q.len(),
            j <= t.len(),
            start <= j,
            scan(q@, t@, i as int, j as int, start as int) == fuzzy_match(q@, t@),
        decreases q.len() - i, t.len() - j,
    {
        if j >= t.len() {
            return None;
        }
        if chars_eq_ci(q[i], t[j]) {
            if i == 0 {
                start = j;
            }
            i = i + 1;
        }
        j = j + 1;
    }
    Some((start, j))
}

fn name_key_of(a: &Vec<char>) -> (r: Vec<u32>)
    ensures
        r@ == name_key(a@),
{
    let mut r: Vec<u32> = Vec::new();
    let mut i: usize = 0;
    while i < a.len()
        invariant
            i <= a.len(),
            r@ =~= name_key(a@.subrange(0, i as int)),
        decreases a.len() - i,
    {
        r.push(fold_char(a[i]));
        assert(a@.subrange(0, i + 1) =~= a@.subrange(0, i as int).push(a@[i as int]));
        i = i + 1;
    }
    assert(a@.subrange(0, i as int) =~= a@);
    r
}

/// Whether `h` matches `q`, with its sort key when it does.
fn rank(q: &Vec<char>, h: &HostRecord, by_name: bool) -> (r: Option<RankKey>)
    ensures
        match r {
            Some(k) => matches(q@, h@) && k@ == rank_key(q@, h@, by_name),
            None => !matches(q@, h@),
        },
{
    let alias = chars_of(h.alias.as_str());
    let mut t = chars_of(h.alias.as_str());
    let d = h.destination();
    let mut dc = chars_of(d.as_str());
    t.append(&mut dc);
    let name = name_key_of(&alias);
    match fuzzy_find(q, &t) {
        None => None,
        Some((s, e)) => {
            if by_name {
                Some(RankKey { tier: 0, span: 0, start: 0, name })
            } else {
                let tier: u8 = if range_eq_ci(&alias, 0, alias.len(), q) {
                    0
                } else if q.len() <= alias.len() && range_eq_ci(&alias, 0, q.len(), q) {
                    1
                } else {
                    2
                };
                assert(alias@.subrange(0, alias@.len() as int) =~= alias@);
                Some(RankKey { tier, span: e - s, start: s, name })
            }
        },
    }
}

/// The hosts of `reg` that match the query `q`, as `filter_post` states.
pub fn filter_chars(registry: &Registry, q: &Vec<char>, sort_by_name: bool) -> (r: Vec<HostRecord>)
    ensures
        filter_post(registry@, q@, sort_by_name, hosts_view(r@)),
{
    let hosts = registry.list();
    let ghost reg = hosts_view(hosts@);
    let mut out: Vec<HostRecord> = Vec::new();
    if q.len() == 0 && !sort_by_name {
        let mut i: usize = 0;
        while i < hosts.len()
            invariant
                i <= hosts.len(),
                reg == hosts_view(hosts@),
                hosts_view(out@) =~= reg.take(i as int),
            decreases hosts.len() - i,
        {
            let ghost prev = hosts_view(out@);
            out.push(hosts[i].copy());
            assert(hosts_view(out@) =~= prev.push(reg[i as int]));
            assert(reg.take(i + 1) =~= reg.take(i as int).push(reg[i as int]));
            i = i + 1;
        }
        assert(reg.take(i as int) =~= reg);
        return out;
    }
    let mut keys: Vec<RankKey> = Vec::new();
    let mut i: usize = 0;
    assert(hosts_view(out@) =~= Seq::<HostView>::empty());
    assert(reg.take(0) =~= Seq::<HostView>::empty());
    while i < hosts.len()
        invariant
            i <= hosts.len(),
            reg == hosts_view(hosts@),
            keys.len() == out.len(),
            forall|k: int| 0 <= k < keys.len() ==> (#[trigger] keys@[k])@ == rank_key(q@, out@[k]@, sort_by_name),
            forall|a: int, b: int| 0 <= a < b < keys.len() ==> key_le(keys@[a]@, keys@[b]@),
            hosts_view(out@).to_multiset() == matching(reg.take(i as int), q@).to_multiset(),
        decreases hosts.len() - i,
    {
        assert(reg.take(i + 1).drop_last() =~= reg.take(i as int));
        assert(reg.take(i + 1).last() == hosts@[i as int]@);
        match rank(q, &hosts[i], sort_by_name) {
            None => {},
            Some(key) => {
                let mut p: usize = keys.len();
                while p > 0 && !key_le_exec(&keys[p - 1], &key)
                    invariant
                        p <= keys.len(),
                        forall|m: int| p <= m < keys.len() ==> !key_le((#[trigger] keys@[m])@, key@),
                    decreases p,
                {
                    p = p - 1;
                }
                let ghost old_keys = keys@;
                let ghost old_out = hosts_view(out@);
                let ghost kv = key@;
                keys.insert(p, key);
                out.insert(p, hosts[i].copy());
                assert(hosts_view(out@) =~= old_out.insert(p as int, hosts@[i as int]@));
                assert forall|k: int| 0 <= k < keys.len() implies (#[trigger] keys@[k])@ == rank_key(
                    q@,
                    out@[k]@,
                    sort_by_name,
                ) by {
                    if k > p {
                        assert(keys@[k] == old_keys[k - 1]);
                    }
                }
                assert forall|a: int, b: int| 0 <= a < b < keys.len() implies key_le(
                    keys@[a]@,
                    keys@[b]@,
                ) by {
                    if a < p && b == p {
                        if a < p - 1 {
                            lemma_key_trans(old_keys[a]@, old_keys[p - 1]@, kv);
                        }
                    } else if a == p && b > p {
                        lemma_key_total(old_keys[b - 1]@, kv);
                    } else if a < p && b > p {
                        lemma_key_total(old_keys[b - 1]@, kv);
                        if a < p - 1 {
                            lemma_key_trans(old_keys[a]@, old_keys[p - 1]@, kv);
                        }
                        lemma_key_trans(old_keys[a]@, kv, old_keys[b - 1]@);
                    } else if a > p {
                        assert(keys@[a] == old_keys[a - 1]);
                        assert(keys@[b] == old_keys[b - 1]);
                    }
                }
            },
        }
        i = i + 1;
    }
    assert(reg.take(i as int) =~= reg);
    assert forall|a: int, b: int| 0 <= a < b < hosts_view(out@).len() implies key_le(
        rank_key(q@, #[trigger] hosts_view(out@)[a], sort_by_name),
        rank_key(q@, #[trigger] hosts_view(out@)[b], sort_by_name),
    ) by {
        assert(keys@[a]@ == rank_key(q@, out@[a]@, sort_by_name));
        assert(keys@[b]@ == rank_key(q@, out@[b]@, sort_by_name));
    }
    out
}

/// The hosts of the registry that match `query`, as `filter_post` states:
/// with no query and no sort, all of them in registry order; otherwise the
/// matching ones ordered alphabetically by alias when `sort_by_name` is set,
/// else by exact match, prefix match, match length, match start and alias.
pub fn filter(registry: &Registry, query: &str, sort_by_name: bool) -> (r: Vec<HostRecord>)
    ensures
        filter_post(registry@, query@, sort_by_name, hosts_view(r@)),
{
    let q = chars_of(query);
    filter_chars(registry, &q, sort_by_name)
}

} // verus!
