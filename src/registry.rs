//! The merged, ordered collection of hosts from several configuration files.
use vstd::prelude::*;
use crate::host::{hosts_view, HostRecord, HostView};

verus! {

/// The last index of `reg` whose alias is `a`, or -1.
pub open spec fn alias_pos(reg: Seq<HostView>, a: Seq<char>) -> int
    decreases reg.len(),
{
    if reg.len() == 0 {
        -1
    } else if reg.last().alias == a {
        reg.len() - 1
    } else {
        alias_pos(reg.drop_last(), a)
    }
}

/// No two records share an alias.
pub open spec fn unique_aliases(reg: Seq<HostView>) -> bool {
    forall|i: int, j: int| 0 <= i < j < reg.len() ==> reg[i].alias != reg[j].alias
}

/// The registry after one record: it replaces the record of the same alias
/// in place, or comes last.
pub open spec fn insert_host(reg: Seq<HostView>, h: HostView) -> Seq<HostView> {
    let p = alias_pos(reg, h.alias);
    if p >= 0 {
        reg.update(p, h)
    } else {
        reg.push(h)
    }
}

/// The registry after the records of one source, in order.
pub open spec fn add_records(reg: Seq<HostView>, recs: Seq<HostView>) -> Seq<HostView>
    decreases recs.len(),
{
    if recs.len() == 0 {
        reg
    } else {
        insert_host(add_records(reg, recs.drop_last()), recs.last())
    }
}

/// The registry built from sources, loaded in order.
pub open spec fn merge_sources(srcs: Seq<Seq<HostView>>) -> Seq<HostView>
    decreases srcs.len(),
{
    if srcs.len() == 0 {
        Seq::empty()
    } else {
        add_records(merge_sources(srcs.drop_last()), srcs.last())
    }
}

/// The records of each named source.
pub open spec fn sources_view(s: Seq<(String, Vec<HostRecord>)>) -> Seq<Seq<HostView>> {
    s.map_values(|p: (String, Vec<HostRecord>)| hosts_view(p.1@))
}

/// What `alias_pos` finds: the last match, or that there is none.
pub proof fn lemma_alias_pos(reg: Seq<HostView>, a: Seq<char>)
    ensures
        -1 <= alias_pos(reg, a) < reg.len(),
        alias_pos(reg, a) == -1 <==> forall|j: int| 0 <= j < reg.len() ==> reg[j].alias != a,
        alias_pos(reg, a) >= 0 ==> reg[alias_pos(reg, a)].alias == a,
        forall|j: int| alias_pos(reg, a) < j < reg.len() ==> reg[j].alias != a,
    decreases reg.len(),
{
    if reg.len() > 0 {
        let d = reg.drop_last();
        lemma_alias_pos(d, a);
        assert forall|j: int| 0 <= j < d.len() implies #[trigger] d[j] == reg[j] by {}
        assert(reg.last() == reg[reg.len() - 1]);
        if reg.last().alias != a {
            assert forall|j: int| alias_pos(reg, a) < j < reg.len() implies reg[j].alias != a by {
                if j < reg.len() - 1 {
                    assert(d[j] == reg[j]);
                }
            }
            if alias_pos(reg, a) == -1 {
                assert forall|j: int| 0 <= j < reg.len() implies reg[j].alias != a by {
                    if j < reg.len() - 1 {
                        assert(d[j] == reg[j]);
                    }
                }
            }
        }
    }
}

proof fn lemma_alias_pos_at(reg: Seq<HostView>, a: Seq<char>, p: int)
    requires
        0 <= p < reg.len(),
        reg[p].alias == a,
        forall|j: int| p < j < reg.len() ==> reg[j].alias != a,
    ensures
        alias_pos(reg, a) == p,
{
    lemma_alias_pos(reg, a);
}

proof fn lemma_insert_host(reg: Seq<HostView>, h: HostView, x: Seq<char>)
    requires
        unique_aliases(reg),
    ensures
        unique_aliases(insert_host(reg, h)),
        alias_pos(insert_host(reg, h), h.alias) >= 0,
        insert_host(reg, h)[alias_pos(insert_host(reg, h), h.alias)] == h,
        alias_pos(reg, x) >= 0 ==> alias_pos(insert_host(reg, h), x) == alias_pos(reg, x),
        alias_pos(reg, x) >= 0 && x != h.alias ==> insert_host(reg, h)[alias_pos(reg, x)] == reg[alias_pos(reg, x)],
{
    let r2 = insert_host(reg, h);
    lemma_alias_pos(reg, h.alias);
    lemma_alias_pos(reg, x);
    let p = alias_pos(reg, h.alias);
    if p >= 0 {
        lemma_alias_pos_at(r2, h.alias, p);
    } else {
        lemma_alias_pos_at(r2, h.alias, reg.len() as int);
    }
    if alias_pos(reg, x) >= 0 {
        lemma_alias_pos_at(r2, x, alias_pos(reg, x));
    }
}

/// Loading records keeps aliases unique, keeps the place of every alias
/// already present, and leaves at each alias the last record loaded for it.
pub proof fn lemma_add_records(reg: Seq<HostView>, recs: Seq<HostView>, x: Seq<char>)
    requires
        unique_aliases(reg),
    ensures
        unique_aliases(add_records(reg, recs)),
        alias_pos(reg, x) >= 0 ==> alias_pos(add_records(reg, recs), x) == alias_pos(reg, x),
        alias_pos(recs, x) >= 0 ==> alias_pos(add_records(reg, recs), x) >= 0
            && add_records(reg, recs)[alias_pos(add_records(reg, recs), x)] == recs[alias_pos(recs, x)],
        alias_pos(reg, x) >= 0 && alias_pos(recs, x) < 0 ==>
            add_records(reg, recs)[alias_pos(reg, x)] == reg[alias_pos(reg, x)],
    decreases recs.len(),
{
    if recs.len() > 0 {
        let prev = add_records(reg, recs.drop_last());
        lemma_add_records(reg, recs.drop_last(), x);
        lemma_insert_host(prev, recs.last(), x);
        lemma_alias_pos(prev, x);
        lemma_alias_pos(recs.drop_last(), x);
        lemma_alias_pos(recs, x);
        if alias_pos(recs, x) >= 0 && recs.last().alias != x {
            assert(recs.drop_last()[alias_pos(recs, x)] == recs[alias_pos(recs, x)]);
        }
    }
}

/// Whatever was loaded before, a record of a later source replaces the
/// record of the same alias whole and takes its place: when source `b`
/// repeats an alias of source `a`, the merged registry holds `b`'s record
/// for it, at the position where `a` first put that alias.
pub proof fn lemma_later_source_wins(a: Seq<HostView>, b: Seq<HostView>, x: Seq<char>)
    requires
        alias_pos(a, x) >= 0,
        alias_pos(b, x) >= 0,
    ensures
        alias_pos(merge_sources(seq![a]), x) >= 0,
        alias_pos(merge_sources(seq![a, b]), x) == alias_pos(merge_sources(seq![a]), x),
        merge_sources(seq![a, b])[alias_pos(merge_sources(seq![a]), x)] == b[alias_pos(b, x)],
{
    let s1 = seq![a];
    let s2 = seq![a, b];
    assert(s1.drop_last() =~= Seq::<Seq<HostView>>::empty());
    assert(s2.drop_last() =~= s1);
    let m1 = merge_sources(s1);
    assert(merge_sources(s1.drop_last()) == Seq::<HostView>::empty());
    assert(s1.last() == a);
    assert(s2.last() == b);
    assert(m1 == add_records(Seq::empty(), a));
    lemma_add_records(Seq::empty(), a, x);
    assert(merge_sources(s2) == add_records(m1, b));
    lemma_add_records(m1, b, x);
}

/// Every built registry has unique aliases.
proof fn lemma_merge_unique(srcs: Seq<Seq<HostView>>)
    ensures
        unique_aliases(merge_sources(srcs)),
    decreases srcs.len(),
{
    if srcs.len() > 0 {
        lemma_merge_unique(srcs.drop_last());
        lemma_add_records(merge_sources(srcs.drop_last()), srcs.last(), Seq::empty());
    }
}

/// The hosts of all configuration files, one per alias, in order of first
/// appearance; built once and read thereafter.
pub struct Registry {
    hosts: Vec<HostRecord>,
}

impl View for Registry {
    type V = Seq<HostView>;

    closed spec fn view(&self) -> Seq<HostView> {
        hosts_view(self.hosts@)
    }
}

/// The position of alias `a` in `hosts`, scanning from the end.
fn position(hosts: &Vec<HostRecord>, a: &String) -> (r: Option<usize>)
    ensures
        match r {
            Some(p) => p as int == alias_pos(hosts_view(hosts@), a@) && p < hosts.len(),
            None => alias_pos(hosts_view(hosts@), a@) == -1,
        },
{
    let ghost all = hosts_view(hosts@);
    let mut j: usize = hosts.len();
    assert(all.take(j as int) =~= all);
    while j > 0
        invariant
            j <= hosts.len(),
            all == hosts_view(hosts@),
            alias_pos(all.take(j as int), a@) == alias_pos(all, a@),
        decreases j,
    {
        assert(all.take(j as int).drop_last() =~= all.take(j - 1));
        if hosts[j - 1].alias == *a {
            return Some(j - 1);
        }
        j = j - 1;
    }
    None
}

impl Registry {
    /// The well-formedness of a registry: aliases are unique.
    pub open spec fn wf(&self) -> bool {
        unique_aliases(self@)
    }

    /// Merges the records of the sources, loaded in the order given: a
    /// repeated alias takes the later record whole, at the place where the
    /// alias was first seen.
    pub fn build(sources: &Vec<(String, Vec<HostRecord>)>) -> (r: Registry)
        ensures
            r@ == merge_sources(sources_view(sources@)),
            r.wf(),
    {
        let ghost srcs = sources_view(sources@);
        let mut hosts: Vec<HostRecord> = Vec::new();
        let mut k: usize = 0;
        assert(srcs.take(0) =~= Seq::<Seq<HostView>>::empty());
        assert(hosts_view(hosts@) =~= merge_sources(srcs.take(0)));
        while k < sources.len()
            invariant
                k <= sources.len(),
                srcs == sources_view(sources@),
                hosts_view(hosts@) == merge_sources(srcs.take(k as int)),
            decreases sources.len() - k,
        {
            let recs = &sources[k].1;
            let ghost start = hosts_view(hosts@);
            let ghost rv = hosts_view(recs@);
            let mut i: usize = 0;
            assert(rv.take(0) =~= Seq::<HostView>::empty());
            while i < recs.len()
                invariant
                    i <= recs.len(),
                    rv == hosts_view(recs@),
                    hosts_view(hosts@) == add_records(start, rv.take(i as int)),
                decreases recs.len() - i,
            {
                let h = recs[i].copy();
                let ghost prev = hosts_view(hosts@);
                assert(rv.take(i + 1).drop_last() =~= rv.take(i as int));
                match position(&hosts, &h.alias) {
                    Some(p) => {
                        hosts.set(p, h);
                        assert(hosts_view(hosts@) =~= prev.update(p as int, rv[i as int]));
                    },
                    None => {
                        hosts.push(h);
                        assert(hosts_view(hosts@) =~= prev.push(rv[i as int]));
                    },
                }
                i = i + 1;
            }
            assert(rv.take(i as int) =~= rv);
            assert(srcs.take(k + 1).drop_last() =~= srcs.take(k as int));
            k = k + 1;
        }
        assert(srcs.take(k as int) =~= srcs);
        proof {
            lemma_merge_unique(srcs);
        }
        Registry { hosts }
    }

    /// The hosts, in registry order.
    pub fn list(&self) -> (r: &Vec<HostRecord>)
        ensures
            hosts_view(r@) == self@,
    {
        &self.hosts
    }

    /// The number of hosts.
    pub fn len(&self) -> (r: usize)
        ensures
            r == self@.len(),
    {
        self.hosts.len()
    }

    /// The host with the given alias, if any.
    pub fn get(&self, alias: &str) -> (r: Option<&HostRecord>)
        ensures
            match r {
                Some(h) => alias_pos(self@, alias@) >= 0 && h@ == self@[alias_pos(self@, alias@)],
                None => alias_pos(self@, alias@) == -1,
            },
    {
        let a = alias.to_owned();
        match position(&self.hosts, &a) {
            Some(p) => Some(&self.hosts[p]),
            None => None,
        }
    }
}

} // verus!
