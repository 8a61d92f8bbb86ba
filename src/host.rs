//! One configured destination and its mathematical model.
use vstd::prelude::*;
use crate::text::{chars_of, seq_eq_ci, range_eq_ci, string_of};

verus! {

/// A configured destination, as read from a `Host` block.
#[derive(Debug)]
pub struct HostRecord {
    /// The name given after `Host`; the registry's key.
    pub alias: String,
    /// The network address to connect to, when one was given.
    pub hostname: Option<String>,
    /// The remote login name, when one was given.
    pub user: Option<String>,
    /// A raw command used for tunnelling, when one was given.
    pub proxy_command: Option<String>,
    /// Every other directive, key as written, in order of first appearance.
    pub extra_attributes: Vec<(String, String)>,
}

/// What a host record holds, as sequences of characters.
pub struct HostView {
    pub alias: Seq<char>,
    pub hostname: Option<Seq<char>>,
    pub user: Option<Seq<char>>,
    pub proxy_command: Option<Seq<char>>,
    pub extra: Seq<(Seq<char>, Seq<char>)>,
}

pub open spec fn opt_view(o: Option<String>) -> Option<Seq<char>> {
    match o {
        Some(s) => Some(s@),
        None => None,
    }
}

pub open spec fn pair_view(p: (String, String)) -> (Seq<char>, Seq<char>) {
    (p.0@, p.1@)
}

/// The views of a sequence of attribute pairs.
pub open spec fn pairs_view(v: Seq<(String, String)>) -> Seq<(Seq<char>, Seq<char>)> {
    v.map_values(|p: (String, String)| pair_view(p))
}

impl View for HostRecord {
    type V = HostView;

    open spec fn view(&self) -> HostView {
        HostView {
            alias: self.alias@,
            hostname: opt_view(self.hostname),
            user: opt_view(self.user),
            proxy_command: opt_view(self.proxy_command),
            extra: pairs_view(self.extra_attributes@),
        }
    }
}

/// The views of a sequence of records.
pub open spec fn hosts_view(v: Seq<HostRecord>) -> Seq<HostView> {
    v.map_values(|h: HostRecord| h@)
}

/// A record with only an alias.
pub open spec fn bare_host(alias: Seq<char>) -> HostView {
    HostView { alias, hostname: None, user: None, proxy_command: None, extra: Seq::empty() }
}

/// The address a host is reached at: its hostname, else its alias.
pub open spec fn destination_of(h: HostView) -> Seq<char> {
    match h.hostname {
        Some(n) => n,
        None => h.alias,
    }
}

/// The first index from `i` on whose key is `k`, or -1.
pub open spec fn key_pos(e: Seq<(Seq<char>, Seq<char>)>, k: Seq<char>, i: int) -> int
    decreases e.len() - i,
{
    if i < 0 || i >= e.len() {
        -1
    } else if e[i].0 == k {
        i
    } else {
        key_pos(e, k, i + 1)
    }
}

/// The attributes after setting `k` to `v`: in place where `k` is present,
/// else at the end.
pub open spec fn extra_set(
    e: Seq<(Seq<char>, Seq<char>)>,
    k: Seq<char>,
    v: Seq<char>,
) -> Seq<(Seq<char>, Seq<char>)> {
    let p = key_pos(e, k, 0);
    if p >= 0 {
        e.update(p, (k, v))
    } else {
        e.push((k, v))
    }
}

/// The value of attribute `k`, if present.
pub open spec fn extra_get(e: Seq<(Seq<char>, Seq<char>)>, k: Seq<char>) -> Option<Seq<char>> {
    let p = key_pos(e, k, 0);
    if p >= 0 {
        Some(e[p].1)
    } else {
        None
    }
}

/// The record after one `key value` directive: the three known keys, in any
/// case, set their field; any other key is kept as written among the extra
/// attributes.
pub open spec fn apply_directive(h: HostView, key: Seq<char>, val: Seq<char>) -> HostView {
    if seq_eq_ci(key, "hostname"@) {
        HostView { hostname: Some(val), ..h }
    } else if seq_eq_ci(key, "user"@) {
        HostView { user: Some(val), ..h }
    } else if seq_eq_ci(key, "proxycommand"@) {
        HostView { proxy_command: Some(val), ..h }
    } else {
        HostView { extra: extra_set(h.extra, key, val), ..h }
    }
}

fn copy_opt(o: &Option<String>) -> (r: Option<String>)
    ensures
        opt_view(r) == opt_view(*o),
{
    match o {
        Some(s) => Some(s.clone()),
        None => None,
    }
}

impl HostRecord {
    /// A record with only an alias.
    pub fn new(alias: String) -> (r: HostRecord)
        ensures
            r@ == bare_host(alias@),
    {
        let r = HostRecord {
            alias,
            hostname: None,
            user: None,
            proxy_command: None,
            extra_attributes: Vec::new(),
        };
        assert(r@.extra =~= Seq::<(Seq<char>, Seq<char>)>::empty());
        r
    }

    /// An independent record with the same contents.
    pub fn copy(&self) -> (r: HostRecord)
        ensures
            r@ == self@,
    {
        let mut extra: Vec<(String, String)> = Vec::new();
        let mut i: usize = 0;
        while i < self.extra_attributes.len()
            invariant
                i <= self.extra_attributes.len(),
                pairs_view(extra@) == pairs_view(self.extra_attributes@.subrange(0, i as int)),
            decreases self.extra_attributes.len() - i,
        {
            let k = self.extra_attributes[i].0.clone();
            let v = self.extra_attributes[i].1.clone();
            let ghost prev = extra@;
            extra.push((k, v));
            let ghost src = self.extra_attributes@;
            assert(src.subrange(0, i + 1) =~= src.subrange(0, i as int).push(src[i as int]));
            assert(pairs_view(extra@) =~= pairs_view(prev).push(pair_view(src[i as int])));
            assert(pairs_view(src.subrange(0, i + 1)) =~= pairs_view(src.subrange(0, i as int)).push(
                pair_view(src[i as int]),
            ));
            i = i + 1;
        }
        assert(self.extra_attributes@.subrange(0, i as int) =~= self.extra_attributes@);
        HostRecord {
            alias: self.alias.clone(),
            hostname: copy_opt(&self.hostname),
            user: copy_opt(&self.user),
            proxy_command: copy_opt(&self.proxy_command),
            extra_attributes: extra,
        }
    }

    /// The address the host is reached at: its hostname, else its alias.
    pub fn destination(&self) -> (r: String)
        ensures
            r@ == destination_of(self@),
    {
        match &self.hostname {
            Some(n) => n.clone(),
            None => self.alias.clone(),
        }
    }

    /// The position of attribute `key`, if present.
    fn attribute_pos(&self, key: &String) -> (r: Option<usize>)
        ensures
            match r {
                Some(p) => p as int == key_pos(self@.extra, key@, 0) && p < self.extra_attributes.len(),
                None => key_pos(self@.extra, key@, 0) == -1,
            },
    {
        let mut i: usize = 0;
        while i < self.extra_attributes.len()
            invariant
                i <= self.extra_attributes.len(),
                key_pos(self@.extra, key@, i as int) == key_pos(self@.extra, key@, 0),
            decreases self.extra_attributes.len() - i,
        {
            if self.extra_attributes[i].0 == *key {
                return Some(i);
            }
            i = i + 1;
        }
        None
    }

    /// The value of extra attribute `key`, if present.
    pub fn attribute(&self, key: &str) -> (r: Option<String>)
        ensures
            opt_view(r) == extra_get(self@.extra, key@),
    {
        let k = key.to_owned();
        match self.attribute_pos(&k) {
            Some(p) => Some(self.extra_attributes[p].1.clone()),
            None => None,
        }
    }

    /// Sets extra attribute `key`: in place where present, else at the end.
    pub fn set_attribute(&mut self, key: String, value: String)
        ensures
            final(self)@ == (HostView { extra: extra_set(old(self)@.extra, key@, value@), ..old(self)@ }),
    {
        match self.attribute_pos(&key) {
            Some(p) => {
                let ghost k = key@;
                self.extra_attributes.set(p, (key, value));
                assert(self@.extra =~= extra_set(old(self)@.extra, k, value@));
            },
            None => {
                let ghost k = key@;
                self.extra_attributes.push((key, value));
                assert(self@.extra =~= extra_set(old(self)@.extra, k, value@));
            },
        }
    }

    /// Applies one `key value` directive of `line[klo..khi]` and
    /// `line[vlo..vhi]`.
    pub fn apply(&mut self, line: &Vec<char>, klo: usize, khi: usize, vlo: usize, vhi: usize)
        requires
            klo <= khi <= line.len(),
            vlo <= vhi <= line.len(),
        ensures
            final(self)@ == apply_directive(
                old(self)@,
                line@.subrange(klo as int, khi as int),
                line@.subrange(vlo as int, vhi as int),
            ),
    {
        let val = string_of(line, vlo, vhi);
        if range_eq_ci(line, klo, khi, &chars_of("hostname")) {
            self.hostname = Some(val);
        } else if range_eq_ci(line, klo, khi, &chars_of("user")) {
            self.user = Some(val);
        } else if range_eq_ci(line, klo, khi, &chars_of("proxycommand")) {
            self.proxy_command = Some(val);
        } else {
            let key = string_of(line, klo, khi);
            self.set_attribute(key, val);
        }
    }
}

} // verus!
