//! The host-configuration parser: `Host <alias>` blocks of `Key Value` lines.
use vstd::prelude::*;
use crate::text::{
    chars_of, find_non_blank, find_trim_end, find_word_end, range_eq_ci, seq_eq_ci, skip_blank,
    string_of, trim_end, word_end,
};
use crate::host::{apply_directive, bare_host, hosts_view, HostRecord, HostView};

verus! {

/// Why a configuration text was refused; lines count from 1.
#[derive(Debug, Clone, Copy, PartialEq, Eq, Structural)]
pub enum ParseError {
    /// A directive stands before any `Host` line.
    OrphanDirective { line: usize },
    /// A `Host` line names no alias.
    EmptyAlias { line: usize },
    /// A directive has a key and no value.
    MissingValue { line: usize },
}

/// The parser's state between lines: the closed blocks and the open one.
pub struct ParseState {
    pub hosts: Seq<HostView>,
    pub cur: Option<HostView>,
}

/// The closed blocks, with the open one closed too.
pub open spec fn close_block(st: ParseState) -> Seq<HostView> {
    match st.cur {
        Some(h) => st.hosts.push(h),
        None => st.hosts,
    }
}

/// The index of the first newline from `i` on, or the length.
pub open spec fn line_end(s: Seq<char>, i: int) -> int
    decreases s.len() - i,
{
    if i < 0 || i >= s.len() {
        s.len() as int
    } else if s[i] == '\n' {
        i
    } else {
        line_end(s, i + 1)
    }
}

/// The effect of the line `s[lo..hi]`, numbered `n`, on the state.
pub open spec fn parse_line(s: Seq<char>, lo: int, hi: int, n: usize, st: ParseState) -> Result<
    ParseState,
    ParseError,
> {
    let a = skip_blank(s, lo, hi);
    let b = trim_end(s, a, hi);
    if a == b || s[a] == '#' {
        Ok(st)
    } else {
        let ke = word_end(s, a, b);
        let vs = skip_blank(s, ke, b);
        let key = s.subrange(a, ke);
        let val = s.subrange(vs, b);
        if seq_eq_ci(key, "host"@) {
            if vs == b {
                Err(ParseError::EmptyAlias { line: n })
            } else {
                Ok(ParseState { hosts: close_block(st), cur: Some(bare_host(val)) })
            }
        } else {
            match st.cur {
                None => Err(ParseError::OrphanDirective { line: n }),
                Some(h) => if vs == b {
                    Err(ParseError::MissingValue { line: n })
                } else {
                    Ok(ParseState { hosts: st.hosts, cur: Some(apply_directive(h, key, val)) })
                },
            }
        }
    }
}

/// The result of parsing `s` from the line that starts at `i`, numbered `n`.
pub open spec fn parse_from(s: Seq<char>, i: int, n: usize, st: ParseState) -> Result<
    Seq<HostView>,
    ParseError,
>
    decreases s.len() + 1 - i,
{
    if i < 0 || i > s.len() {
        Ok(close_block(st))
    } else {
        let e = line_end(s, i);
        match parse_line(s, i, e, n, st) {
            Err(x) => Err(x),
            Ok(st2) => if e < i || e > s.len() || n == usize::MAX {
                Ok(close_block(st2))
            } else {
                parse_from(s, e + 1, (n + 1) as usize, st2)
            },
        }
    }
}

/// The records that a configuration text describes, in order of their
/// `Host` lines, or the first error.
///
/// Blank lines and lines whose first non-blank character is `#` are skipped.
/// A `Host` line (the key in any case) opens a block whose alias is the rest
/// of the line, trimmed. Any other line is `Key Value`, applied to the open
/// block; one before any block is an orphan.
pub open spec fn parse_spec(s: Seq<char>) -> Result<Seq<HostView>, ParseError> {
    parse_from(s, 0, 1, ParseState { hosts: Seq::empty(), cur: None })
}

/// Parsing depends on the text alone: the same text gives the same records.
pub proof fn lemma_parse_deterministic(a: Seq<char>, b: Seq<char>)
    requires
        a == b,
    ensures
        parse_spec(a) == parse_spec(b),
{
}

pub open spec fn opt_host_view(o: Option<HostRecord>) -> Option<HostView> {
    match o {
        Some(h) => Some(h@),
        None => None,
    }
}

fn find_line_end(s: &Vec<char>, i: usize) -> (r: usize)
    requires
        i <= s.len(),
    ensures
        r == line_end(s@, i as int),
        i <= r <= s.len(),
{
    let mut j = i;
    while j < s.len() && s[j] != '\n'
        invariant
            i <= j <= s.len(),
            line_end(s@, j as int) == line_end(s@, i as int),
        decreases s.len() - j,
    {
        j = j + 1;
    }
    j
}

fn close_current(hosts: &mut Vec<HostRecord>, cur: Option<HostRecord>)
    ensures
        hosts_view(final(hosts)@) == close_block(
            ParseState { hosts: hosts_view(old(hosts)@), cur: opt_host_view(cur) },
        ),
{
    match cur {
        Some(h) => {
            let ghost prev = hosts@;
            hosts.push(h);
            assert(hosts_view(hosts@) =~= hosts_view(prev).push(h@));
        },
        None => {},
    }
}

/// Parses a configuration text into its records, in order, or the first error
/// with its line.
pub fn parse(text: &str) -> (r: Result<Vec<HostRecord>, ParseError>)
    ensures
        match r {
            Ok(v) => parse_spec(text@) == Ok::<Seq<HostView>, ParseError>(hosts_view(v@)),
            Err(e) => parse_spec(text@) == Err::<Seq<HostView>, ParseError>(e),
        },
{
    let s = chars_of(text);
    let mut hosts: Vec<HostRecord> = Vec::new();
    let mut cur: Option<HostRecord> = None;
    let mut i: usize = 0;
    let mut n: usize = 1;
    assert(hosts_view(hosts@) =~= Seq::<HostView>::empty());
    while i <= s.len()
        invariant
            s@ == text@,
            i <= s.len(),
            parse_from(s@, i as int, n, ParseState { hosts: hosts_view(hosts@), cur: opt_host_view(cur) })
                == parse_spec(text@),
        decreases s.len() + 1 - i,
    {
        let e = find_line_end(&s, i);
        let a = find_non_blank(&s, i, e);
        let b = find_trim_end(&s, a, e);
        if a == b || s[a] == '#' {
        } else {
            let ke = find_word_end(&s, a, b);
            let vs = find_non_blank(&s, ke, b);
            if range_eq_ci(&s, a, ke, &chars_of("host")) {
                if vs == b {
                    return Err(ParseError::EmptyAlias { line: n });
                }
                let taken = cur;
                close_current(&mut hosts, taken);
                cur = Some(HostRecord::new(string_of(&s, vs, b)));
            } else {
                let taken = cur;
                match taken {
                    None => {
                        return Err(ParseError::OrphanDirective { line: n });
                    },
                    Some(h) => {
                        if vs == b {
                            return Err(ParseError::MissingValue { line: n });
                        }
                        let mut h = h;
                        h.apply(&s, a, ke, vs, b);
                        cur = Some(h);
                    },
                }
            }
        }
        if e == s.len() || n == usize::MAX {
            let ghost st2 = ParseState { hosts: hosts_view(hosts@), cur: opt_host_view(cur) };
            assert(n != usize::MAX ==> parse_from(s@, e + 1, (n + 1) as usize, st2) == Ok::<
                Seq<HostView>,
                ParseError,
            >(close_block(st2)));
            let taken = cur;
            close_current(&mut hosts, taken);
            return Ok(hosts);
        }
        i = e + 1;
        n = n + 1;
    }
    let taken = cur;
    close_current(&mut hosts, taken);
    Ok(hosts)
}

} // verus!
