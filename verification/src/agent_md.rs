//! The agent definition format: a markdown file that may open with a
//! `---`-fenced front matter holding `name:` and `description:` lines,
//! followed by the agent's prompt body.
use vstd::prelude::*;
use crate::text::{
    chars_of, find_at, find_from, lemma_next_char_bounds, lines, lines_from, next_char_at,
    occurs_at, starts_with, starts_with_at, string_of, strip_cr, trim, trim_bounds, equal_chars,
};

verus! {

broadcast use vstd::string::group_string_axioms;

/// The value of the last line of `ls` that begins with `key`: the rest of
/// that line, trimmed; empty when no line begins with `key`.
pub open spec fn field_value(ls: Seq<Seq<char>>, key: Seq<char>) -> Seq<char>
    decreases ls.len(),
{
    if ls.len() == 0 {
        seq![]
    } else if starts_with(ls.last(), key) {
        trim(ls.last().subrange(key.len() as int, ls.last().len() as int))
    } else {
        field_value(ls.drop_last(), key)
    }
}

/// What an agent markdown file `t` holds: its name, its description and
/// its body. A file that starts with `---` and has a later line starting
/// with `---` has the text between them as front matter, and the body is
/// what follows the closing `\n---`; any other file is all body.
pub open spec fn agent_md(t: Seq<char>) -> (Seq<char>, Seq<char>, Seq<char>) {
    if starts_with(t, "---"@) {
        match find_from(t, "\n---"@, 3) {
            Some(k) => {
                let fm = t.subrange(3, k as int);
                (
                    field_value(lines(fm), "name:"@),
                    field_value(lines(fm), "description:"@),
                    t.subrange(k + 4int, t.len() as int),
                )
            },
            None => (seq![], seq![], t),
        }
    } else {
        (seq![], seq![], t)
    }
}

/// An agent definition: name, description and prompt body.
pub struct AgentDef {
    pub name: String,
    pub description: String,
    pub body: String,
}

/// `v[lo..hi]` as a vector of its own.
pub fn copy_range(v: &Vec<char>, lo: usize, hi: usize) -> (r: Vec<char>)
    requires
        lo <= hi <= v@.len(),
    ensures
        r@ == v@.subrange(lo as int, hi as int),
{
    let mut r: Vec<char> = Vec::new();
    let mut i = lo;
    while i < hi
        invariant
            lo <= i <= hi <= v@.len(),
            r@ == v@.subrange(lo as int, i as int),
        decreases hi - i,
    {
        r.push(v[i]);
        i = i + 1;
        assert(r@ =~= v@.subrange(lo as int, i as int));
    }
    r
}

/// The value that `key` is given in the front matter `fm`.
fn front_matter_field(fm: &Vec<char>, key: &Vec<char>) -> (r: String)
    ensures
        r@ == field_value(lines(fm@), key@),
{
    let mut val = String::new();
    let mut pos: usize = 0;
    let ghost mut done: Seq<Seq<char>> = seq![];
    while pos < fm.len()
        invariant
            pos <= fm@.len(),
            lines(fm@) == done + lines_from(fm@, pos as nat),
            val@ == field_value(done, key@),
        decreases fm@.len() - pos,
    {
        let e = next_char_at(fm, '\n', pos);
        proof {
            lemma_next_char_bounds(fm@, '\n', pos as nat);
        }
        let mut le = e;
        if e < fm.len() && e > pos && fm[e - 1] == '\r' {
            le = e - 1;
        }
        let ghost line = fm@.subrange(pos as int, le as int);
        proof {
            if e < fm@.len() {
                assert(strip_cr(fm@.subrange(pos as int, e as int)) =~= line);
            } else {
                assert(fm@.subrange(pos as int, fm@.len() as int) =~= line);
            }
        }
        if starts_with_at(fm, pos, le, key) {
            let (a, b) = trim_bounds(fm, pos + key.len(), le);
            val = string_of(fm, a, b);
            assert(line.subrange(key@.len() as int, line.len() as int) =~= fm@.subrange(
                pos + key@.len(),
                le as int,
            ));
        }
        proof {
            assert(done.push(line).drop_last() =~= done);
            assert(done.push(line).last() == line);
            if e < fm@.len() {
                assert(done + lines_from(fm@, pos as nat) =~= done.push(line) + lines_from(
                    fm@,
                    (e + 1) as nat,
                ));
            } else {
                assert(done + lines_from(fm@, pos as nat) =~= done.push(line) + lines_from(
                    fm@,
                    fm@.len(),
                ));
            }
            done = done.push(line);
        }
        if e < fm.len() {
            pos = e + 1;
        } else {
            pos = fm.len();
        }
    }
    assert(done + lines_from(fm@, pos as nat) =~= done);
    val
}

pub proof fn lemma_find_from_found(s: Seq<char>, p: Seq<char>, i: nat)
    ensures
        find_from(s, p, i) matches Some(k) ==> i <= k && occurs_at(s, p, k as int),
    decreases s.len() + 1 - i,
{
    if i + p.len() <= s.len() && !occurs_at(s, p, i as int) {
        lemma_find_from_found(s, p, i + 1);
    }
}

/// Splits an agent markdown file into its name, description and body.
pub fn parse_agent_md(text: &str) -> (r: (String, String, String))
    ensures
        (r.0@, r.1@, r.2@) == agent_md(text@),
{
    let t = chars_of(text);
    let fence = chars_of("---");
    let closing = chars_of("\n---");
    if starts_with_at(&t, 0, t.len(), &fence) {
        assert(t@.subrange(0, t@.len() as int) =~= t@);
        match find_at(&t, &closing, 3) {
            Some(k) => {
                proof {
                    lemma_find_from_found(t@, closing@, 3);
                    reveal_strlit("\n---");
                }
                let fm = copy_range(&t, 3, k);
                let name = front_matter_field(&fm, &chars_of("name:"));
                let desc = front_matter_field(&fm, &chars_of("description:"));
                let body = string_of(&t, k + 4, t.len());
                return (name, desc, body);
            },
            None => {},
        }
    } else {
        assert(t@.subrange(0, t@.len() as int) =~= t@);
    }
    let body = string_of(&t, 0, t.len());
    assert(t@.subrange(0, t@.len() as int) =~= t@);
    (String::new(), String::new(), body)
}

/// The last index below `n` at which `c` stands in `s`.
pub open spec fn last_index_below(s: Seq<char>, c: char, n: nat) -> Option<nat>
    decreases n,
{
    if n == 0 {
        None
    } else if s[n - 1] == c {
        Some((n - 1) as nat)
    } else {
        last_index_below(s, c, (n - 1) as nat)
    }
}

pub proof fn lemma_last_index_below(s: Seq<char>, c: char, n: nat)
    ensures
        last_index_below(s, c, n) matches Some(i) ==> i < n,
    decreases n,
{
    if n > 0 && s[n - 1] != c {
        lemma_last_index_below(s, c, (n - 1) as nat);
    }
}

/// A file name split into stem and extension as `Path::file_stem` and
/// `Path::extension` split it: at the last `.`, unless that dot opens the
/// name; `..` has no extension.
pub open spec fn split_file_name(name: Seq<char>) -> (Seq<char>, Option<Seq<char>>) {
    if name == ".."@ {
        (name, None)
    } else {
        match last_index_below(name, '.', name.len()) {
            None => (name, None),
            Some(i) => if i == 0 {
                (name, None)
            } else {
                (name.subrange(0, i as int), Some(name.subrange(i + 1int, name.len() as int)))
            },
        }
    }
}

/// Where the last `.` of `v[..n]` stands.
fn last_dot(v: &Vec<char>, n: usize) -> (r: Option<usize>)
    requires
        n <= v@.len(),
    ensures
        r matches Some(i) ==> i < n && last_index_below(v@, '.', n as nat) == Some(i as nat),
        r is None ==> last_index_below(v@, '.', n as nat) is None,
{
    let mut k = n;
    while k > 0 && v[k - 1] != '.'
        invariant
            k <= n <= v@.len(),
            last_index_below(v@, '.', n as nat) == last_index_below(v@, '.', k as nat),
        decreases k,
    {
        k = k - 1;
    }
    proof {
        lemma_last_index_below(v@, '.', k as nat);
    }
    if k == 0 {
        None
    } else {
        Some(k - 1)
    }
}

/// The stem of a file name (the whole name when it has no extension).
pub fn file_stem(name: &str) -> (r: String)
    ensures
        r@ == split_file_name(name@).0,
{
    let v = chars_of(name);
    assert(v@.subrange(0, v@.len() as int) =~= v@);
    if equal_chars(&v, &chars_of("..")) {
        return string_of(&v, 0, v.len());
    }
    match last_dot(&v, v.len()) {
        Some(i) => if i == 0 {
            string_of(&v, 0, v.len())
        } else {
            string_of(&v, 0, i)
        },
        None => string_of(&v, 0, v.len()),
    }
}

/// Whether a directory entry of this name is an agent definition: its
/// extension is `md`.
pub fn is_agent_file_name(name: &str) -> (r: bool)
    ensures
        r == (split_file_name(name@).1 == Some("md"@)),
{
    let v = chars_of(name);
    if equal_chars(&v, &chars_of("..")) {
        return false;
    }
    match last_dot(&v, v.len()) {
        Some(i) => if i == 0 {
            false
        } else {
            let ext = copy_range(&v, i + 1, v.len());
            equal_chars(&ext, &chars_of("md"))
        },
        None => false,
    }
}

/// The agent that file `file_name` with contents `text` defines; an agent
/// without a `name:` in its front matter is named after the file's stem.
pub fn agent_from_file(file_name: &str, text: &str) -> (r: AgentDef)
    ensures
        r.name@ == (if agent_md(text@).0.len() == 0 {
            split_file_name(file_name@).0
        } else {
            agent_md(text@).0
        }),
        r.description@ == agent_md(text@).1,
        r.body@ == agent_md(text@).2,
{
    let (name, description, body) = parse_agent_md(text);
    let name = if name.as_str().is_empty() {
        file_stem(file_name)
    } else {
        name
    };
    AgentDef { name, description, body }
}

} // verus!
