//! Command templates: `{{name}}` substitutes a host attribute quoted for the
//! shell, `{{{name}}}` substitutes it as it stands.
use vstd::prelude::*;
use crate::text::{chars_of, find_non_blank, find_trim_end, skip_blank, string_of, trim_end};
use crate::host::{destination_of, extra_get, opt_view, HostRecord, HostView};

verus! {

/// Why a template could not be rendered.
#[derive(Debug, PartialEq, Eq)]
pub enum RenderError {
    /// A placeholder names no attribute of the host.
    UnknownField(String),
}

pub open spec fn or_empty(o: Option<Seq<char>>) -> Seq<char> {
    match o {
        Some(v) => v,
        None => Seq::empty(),
    }
}

/// The value a placeholder name stands for: `alias`, `hostname` (also
/// `destination`), `user`, `proxy_command` (empty when not set) and the
/// extra attributes by their key.
pub open spec fn lookup(h: HostView, name: Seq<char>) -> Option<Seq<char>> {
    if name == "alias"@ {
        Some(h.alias)
    } else if name == "hostname"@ || name == "destination"@ {
        Some(destination_of(h))
    } else if name == "user"@ {
        Some(or_empty(h.user))
    } else if name == "proxy_command"@ {
        Some(or_empty(h.proxy_command))
    } else {
        extra_get(h.extra, name)
    }
}

/// Characters that the shell reads as themselves.
pub open spec fn is_safe(c: char) -> bool {
    ('a' <= c && c <= 'z') || ('A' <= c && c <= 'Z') || ('0' <= c && c <= '9') || c == '_' || c
        == '@' || c == '%' || c == '+' || c == '=' || c == ':' || c == ',' || c == '.' || c == '/'
        || c == '-'
}

/// The inside of a single-quoted word: each `'` becomes `'\''`.
pub open spec fn quote_body(v: Seq<char>) -> Seq<char>
    decreases v.len(),
{
    if v.len() == 0 {
        Seq::empty()
    } else if v.last() == '\'' {
        quote_body(v.drop_last()) + seq!['\'', '\\', '\'', '\'']
    } else {
        quote_body(v.drop_last()).push(v.last())
    }
}

/// A value as one shell word: unchanged when it is non-empty and all of its
/// characters are safe, else in single quotes.
pub open spec fn shell_quote(v: Seq<char>) -> Seq<char> {
    if v.len() > 0 && forall|k: int| 0 <= k < v.len() ==> is_safe(#[trigger] v[k]) {
        v
    } else {
        seq!['\''] + quote_body(v) + seq!['\'']
    }
}

/// `n` copies of `c` stand in `t` from `i` on.
pub open spec fn run_at(t: Seq<char>, i: int, n: int, c: char) -> bool {
    0 <= i && i + n <= t.len() && forall|d: int| 0 <= d < n ==> #[trigger] t[i + d] == c
}

/// The first index from `k` on where `n` closing braces stand, or -1.
pub open spec fn find_close(t: Seq<char>, k: int, n: int) -> int
    decreases t.len() - k,
{
    if k < 0 || k + n > t.len() {
        -1
    } else if run_at(t, k, n, '}') {
        k
    } else {
        find_close(t, k + 1, n)
    }
}

/// The placeholder name between `lo` and `hi`, trimmed.
pub open spec fn name_in(t: Seq<char>, lo: int, hi: int) -> Seq<char> {
    let a = skip_blank(t, lo, hi);
    t.subrange(a, trim_end(t, a, hi))
}

/// The output after `acc` for the template from index `i` on, or the
/// first unknown name.
pub open spec fn render_from(t: Seq<char>, i: int, h: HostView, acc: Seq<char>) -> Result<
    Seq<char>,
    Seq<char>,
>
    decreases t.len() - i,
{
    if i < 0 || i >= t.len() {
        Ok(acc)
    } else if run_at(t, i, 3, '{') && find_close(t, i + 3, 3) >= 0 {
        let c = find_close(t, i + 3, 3);
        let name = name_in(t, i + 3, c);
        match lookup(h, name) {
            None => Err(name),
            Some(v) => if i < c + 3 <= t.len() {
                render_from(t, c + 3, h, acc + v)
            } else {
                Ok(acc)
            },
        }
    } else if run_at(t, i, 2, '{') && find_close(t, i + 2, 2) >= 0 {
        let c = find_close(t, i + 2, 2);
        let name = name_in(t, i + 2, c);
        match lookup(h, name) {
            None => Err(name),
            Some(v) => if i < c + 2 <= t.len() {
                render_from(t, c + 2, h, acc + shell_quote(v))
            } else {
                Ok(acc)
            },
        }
    } else {
        render_from(t, i + 1, h, acc.push(t[i]))
    }
}

/// The command a template gives for a host, or the first unknown name.
/// Text outside placeholders, and an opening brace pair with no closing
/// pair after it, is copied as it stands.
pub open spec fn render_spec(t: Seq<char>, h: HostView) -> Result<Seq<char>, Seq<char>> {
    render_from(t, 0, h, Seq::empty())
}

fn run_at_exec(t: &Vec<char>, i: usize, n: usize, c: char) -> (r: bool)
    ensures
        r == run_at(t@, i as int, n as int, c),
{
    if n > t.len() || i > t.len() - n {
        return false;
    }
    let mut d: usize = 0;
    while d < n
        invariant
            d <= n,
            i + n <= t.len(),
            forall|e: int| 0 <= e < d ==> #[trigger] t@[i + e] == c,
        decreases n - d,
    {
        if t[i + d] != c {
            return false;
        }
        d = d + 1;
    }
    true
}

fn find_close_exec(t: &Vec<char>, k: usize, n: usize) -> (r: Option<usize>)
    ensures
        match r {
            Some(m) => find_close(t@, k as int, n as int) == m as int && k <= m && m + n <= t.len(),
            None => find_close(t@, k as int, n as int) == -1,
        },
{
    if n > t.len() {
        return None;
    }
    let mut m = k;
    while m <= t.len() - n
        invariant
            k <= m,
            n <= t.len(),
            find_close(t@, m as int, n as int) == find_close(t@, k as int, n as int),
        decreases t.len() - m,
    {
        if run_at_exec(t, m, n, '}') {
            return Some(m);
        }
        m = m + 1;
    }
    None
}

fn or_empty_exec(o: &Option<String>) -> (r: String)
    ensures
        r@ == or_empty(opt_view(*o)),
{
    match o {
        Some(v) => v.clone(),
        None => String::new(),
    }
}

fn lookup_exec(h: &HostRecord, name: &String) -> (r: Option<String>)
    ensures
        opt_view(r) == lookup(h@, name@),
{
    if *name == "alias".to_owned() {
        Some(h.alias.clone())
    } else if *name == "hostname".to_owned() || *name == "destination".to_owned() {
        Some(h.destination())
    } else if *name == "user".to_owned() {
        Some(or_empty_exec(&h.user))
    } else if *name == "proxy_command".to_owned() {
        Some(or_empty_exec(&h.proxy_command))
    } else {
        h.attribute(name.as_str())
    }
}

fn safe(c: char) -> (r: bool)
    ensures
        r == is_safe(c),
{
    ('a' <= c && c <= 'z') || ('A' <= c && c <= 'Z') || ('0' <= c && c <= '9') || c == '_' || c
        == '@' || c == '%' || c == '+' || c == '=' || c == ':' || c == ',' || c == '.' || c == '/'
        || c == '-'
}

/// Appends `v` to `out` as one shell word.
fn push_quoted(out: &mut Vec<char>, v: &Vec<char>)
    ensures
        final(out)@ == old(out)@ + shell_quote(v@),
{
    let mut all_safe = v.len() > 0;
    let mut k: usize = 0;
    while k < v.len()
        invariant
            k <= v.len(),
            all_safe == (v.len() > 0 && forall|m: int| 0 <= m < k ==> is_safe(v@[m])),
        decreases v.len() - k,
    {
        all_safe = all_safe && safe(v[k]);
        k = k + 1;
    }
    if all_safe {
        let mut i: usize = 0;
        while i < v.len()
            invariant
                i <= v.len(),
                out@ == old(out)@ + v@.take(i as int),
            decreases v.len() - i,
        {
            out.push(v[i]);
            assert(v@.take(i + 1) =~= v@.take(i as int).push(v@[i as int]));
            i = i + 1;
        }
        assert(v@.take(i as int) =~= v@);
        assert(out@ =~= old(out)@ + v@);
    } else {
        out.push('\'');
        let ghost base = out@;
        let mut i: usize = 0;
        while i < v.len()
            invariant
                i <= v.len(),
                out@ == base + quote_body(v@.take(i as int)),
            decreases v.len() - i,
        {
            assert(v@.take(i + 1).drop_last() =~= v@.take(i as int));
            if v[i] == '\'' {
                out.push('\'');
                out.push('\\');
                out.push('\'');
                out.push('\'');
                assert(out@ =~= base + quote_body(v@.take(i + 1)));
            } else {
                out.push(v[i]);
                assert(out@ =~= base + quote_body(v@.take(i + 1)));
            }
            i = i + 1;
        }
        out.push('\'');
        assert(v@.take(i as int) =~= v@);
        assert(out@ =~= old(out)@ + shell_quote(v@));
    }
}

fn name_between(t: &Vec<char>, lo: usize, hi: usize) -> (r: String)
    requires
        lo <= hi <= t.len(),
    ensures
        r@ == name_in(t@, lo as int, hi as int),
{
    let a = find_non_blank(t, lo, hi);
    let b = find_trim_end(t, a, hi);
    string_of(t, a, b)
}

/// Renders `template` for `host`: `{{name}}` becomes the attribute quoted as
/// one shell word, `{{{name}}}` the attribute as it stands.
pub fn render(template: &str, host: &HostRecord) -> (r: Result<String, RenderError>)
    ensures
        match r {
            Ok(s) => render_spec(template@, host@) == Ok::<Seq<char>, Seq<char>>(s@),
            Err(RenderError::UnknownField(n)) => render_spec(template@, host@) == Err::<
                Seq<char>,
                Seq<char>,
            >(n@),
        },
{
    let t = chars_of(template);
    let mut out: Vec<char> = Vec::new();
    let mut i: usize = 0;
    while i < t.len()
        invariant
            t@ == template@,
            i <= t.len(),
            render_from(t@, i as int, host@, out@) == render_spec(template@, host@),
        decreases t.len() - i,
    {
        let mut width: usize = 0;
        let mut close: usize = 0;
        if run_at_exec(&t, i, 3, '{') {
            match find_close_exec(&t, i + 3, 3) {
                Some(c) => {
                    width = 3;
                    close = c;
                },
                None => {},
            }
        }
        if width == 0 && run_at_exec(&t, i, 2, '{') {
            match find_close_exec(&t, i + 2, 2) {
                Some(c) => {
                    width = 2;
                    close = c;
                },
                None => {},
            }
        }
        if width == 0 {
            out.push(t[i]);
            i = i + 1;
        } else {
            let name = name_between(&t, i + width, close);
            match lookup_exec(host, &name) {
                None => {
                    return Err(RenderError::UnknownField(name));
                },
                Some(v) => {
                    let vc = chars_of(v.as_str());
                    if width == 3 {
                        let mut vm = vc;
                        out.append(&mut vm);
                    } else {
                        push_quoted(&mut out, &vc);
                    }
                    i = close + width;
                },
            }
        }
    }
    assert(out@.subrange(0, out@.len() as int) =~= out@);
    Ok(string_of(&out, 0, out.len()))
}

} // verus!
