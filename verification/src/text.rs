//! Character-level text model shared by the parsers and generators:
//! Unicode white space, trimming, prefix tests, substring search, line
//! splitting, and joining of `/`-separated paths.
use vstd::prelude::*;

verus! {

broadcast use vstd::string::group_string_axioms;

/// The Unicode `White_Space` property, which `char::is_whitespace` and
/// `str::trim` go by.
pub open spec fn is_white_space(c: char) -> bool {
    let u = c as u32;
    ||| (9 <= u && u <= 13)
    ||| u == 32
    ||| u == 0x85
    ||| u == 0xA0
    ||| u == 0x1680
    ||| (0x2000 <= u && u <= 0x200A)
    ||| u == 0x2028
    ||| u == 0x2029
    ||| u == 0x202F
    ||| u == 0x205F
    ||| u == 0x3000
}

/// `s` without its leading white space.
pub open spec fn trim_start(s: Seq<char>) -> Seq<char>
    decreases s.len(),
{
    if s.len() > 0 && is_white_space(s[0]) {
        trim_start(s.drop_first())
    } else {
        s
    }
}

/// `s` without its trailing white space.
pub open spec fn trim_end(s: Seq<char>) -> Seq<char>
    decreases s.len(),
{
    if s.len() > 0 && is_white_space(s.last()) {
        trim_end(s.drop_last())
    } else {
        s
    }
}

/// `s` without leading and trailing white space (what `str::trim` returns).
pub open spec fn trim(s: Seq<char>) -> Seq<char> {
    trim_end(trim_start(s))
}

/// `s` begins with `p`.
pub open spec fn starts_with(s: Seq<char>, p: Seq<char>) -> bool {
    p.len() <= s.len() && s.subrange(0, p.len() as int) == p
}

/// `p` occurs in `s` at index `i`.
pub open spec fn occurs_at(s: Seq<char>, p: Seq<char>, i: int) -> bool {
    0 <= i && i + p.len() <= s.len() && s.subrange(i, i + p.len()) == p
}

/// The first index at or after `i` at which `p` occurs in `s`.
pub open spec fn find_from(s: Seq<char>, p: Seq<char>, i: nat) -> Option<nat>
    decreases s.len() + 1 - i,
{
    if i + p.len() > s.len() {
        None
    } else if occurs_at(s, p, i as int) {
        Some(i)
    } else {
        find_from(s, p, i + 1)
    }
}

/// The index of the first `c` at or after `i`, or `s.len()` when there is none.
pub open spec fn next_char(s: Seq<char>, c: char, i: nat) -> nat
    decreases s.len() - i,
{
    if i >= s.len() {
        s.len()
    } else if s[i as int] == c {
        i
    } else {
        next_char(s, c, i + 1)
    }
}

pub proof fn lemma_next_char_bounds(s: Seq<char>, c: char, i: nat)
    requires
        i <= s.len(),
    ensures
        i <= next_char(s, c, i) <= s.len(),
        next_char(s, c, i) < s.len() ==> s[next_char(s, c, i) as int] == c,
        forall|k: int| i <= k < next_char(s, c, i) ==> s[k] != c,
    decreases s.len() - i,
{
    if i < s.len() && s[i as int] != c {
        lemma_next_char_bounds(s, c, i + 1);
    }
}

/// A line without the `'\r'` of a `"\r\n"` line ending.
pub open spec fn strip_cr(l: Seq<char>) -> Seq<char> {
    if l.len() > 0 && l.last() == '\r' {
        l.drop_last()
    } else {
        l
    }
}

/// The lines of `s` from index `start` on, as `str::lines` yields them:
/// split at `'\n'`, a `'\r'` before the `'\n'` dropped, and no empty line
/// after a final line ending.
pub open spec fn lines_from(s: Seq<char>, start: nat) -> Seq<Seq<char>>
    decreases s.len() - start,
{
    if start >= s.len() {
        seq![]
    } else {
        let e = next_char(s, '\n', start);
        proof {
            lemma_next_char_bounds(s, '\n', start);
        }
        if e < s.len() {
            seq![strip_cr(s.subrange(start as int, e as int))] + lines_from(s, e + 1)
        } else {
            seq![s.subrange(start as int, s.len() as int)]
        }
    }
}

/// The lines of `s` (what `str::lines` yields).
pub open spec fn lines(s: Seq<char>) -> Seq<Seq<char>> {
    lines_from(s, 0)
}

/// The pieces of `s` from index `start` on between occurrences of `c`, as
/// `str::split` yields them (an empty piece after a trailing `c`).
pub open spec fn split_from(s: Seq<char>, c: char, start: nat) -> Seq<Seq<char>>
    decreases s.len() - start,
{
    let e = next_char(s, c, start);
    proof {
        if start <= s.len() {
            lemma_next_char_bounds(s, c, start);
        }
    }
    if start < s.len() && e < s.len() {
        seq![s.subrange(start as int, e as int)] + split_from(s, c, e + 1)
    } else {
        seq![s.subrange(start as int, s.len() as int)]
    }
}

/// `PathBuf::join` on Unix: an absolute component replaces the base,
/// otherwise a `/` is put between them unless the base is empty or already
/// ends in one.
pub open spec fn join_path(base: Seq<char>, comp: Seq<char>) -> Seq<char> {
    if comp.len() > 0 && comp[0] == '/' {
        comp
    } else if base.len() == 0 || base.last() == '/' {
        base + comp
    } else {
        base + seq!['/'] + comp
    }
}

/// Appends one character to a `String` by `String::push`; trusted to leave
/// the old characters in place with `c` after them.
#[verifier::external_body]
pub(crate) fn push_char(s: &mut String, c: char)
    ensures
        final(s)@ == old(s)@.push(c),
{
    s.push(c);
}

/// The characters of `s`, in order.
pub fn chars_of(s: &str) -> (r: Vec<char>)
    ensures
        r@ == s@,
{
    let mut r: Vec<char> = Vec::new();
    for c in it: s.chars()
        invariant
            it.seq() == s@,
            r@ == it.seq().take(it.index() as int),
    {
        r.push(c);
        assert(r@ =~= it.seq().take(it.index() + 1));
    }
    assert(r@ =~= s@);
    r
}

/// The string made of `v[lo..hi]`.
pub fn string_of(v: &Vec<char>, lo: usize, hi: usize) -> (r: String)
    requires
        lo <= hi <= v@.len(),
    ensures
        r@ == v@.subrange(lo as int, hi as int),
{
    let mut r = String::new();
    let mut i = lo;
    while i < hi
        invariant
            lo <= i <= hi <= v@.len(),
            r@ == v@.subrange(lo as int, i as int),
        decreases hi - i,
    {
        push_char(&mut r, v[i]);
        i = i + 1;
        assert(r@ =~= v@.subrange(lo as int, i as int));
    }
    r
}

/// Appends `v[lo..hi]` to `dst`.
pub fn push_range(dst: &mut String, v: &Vec<char>, lo: usize, hi: usize)
    requires
        lo <= hi <= v@.len(),
    ensures
        final(dst)@ == old(dst)@ + v@.subrange(lo as int, hi as int),
{
    let mut i = lo;
    while i < hi
        invariant
            lo <= i <= hi <= v@.len(),
            dst@ == old(dst)@ + v@.subrange(lo as int, i as int),
        decreases hi - i,
    {
        push_char(dst, v[i]);
        i = i + 1;
        assert(dst@ =~= old(dst)@ + v@.subrange(lo as int, i as int));
    }
}

/// Appends `s` to `dst`.
pub fn push_str(dst: &mut String, s: &str)
    ensures
        final(dst)@ == old(dst)@ + s@,
{
    let v = chars_of(s);
    push_range(dst, &v, 0, v.len());
    assert(v@.subrange(0, v@.len() as int) =~= s@);
}

/// An owned copy of `s`.
pub fn owned(s: &str) -> (r: String)
    ensures
        r@ == s@,
{
    let mut r = String::new();
    push_str(&mut r, s);
    r
}

/// Decides `is_white_space`.
pub fn is_white_space_char(c: char) -> (r: bool)
    ensures
        r == is_white_space(c),
{
    let u = c as u32;
    (9 <= u && u <= 13) || u == 32 || u == 0x85 || u == 0xA0 || u == 0x1680 || (0x2000 <= u
        && u <= 0x200A) || u == 0x2028 || u == 0x2029 || u == 0x202F || u == 0x205F || u
        == 0x3000
}

/// The bounds of `trim(v[lo..hi])` inside `v`.
pub fn trim_bounds(v: &Vec<char>, lo: usize, hi: usize) -> (r: (usize, usize))
    requires
        lo <= hi <= v@.len(),
    ensures
        lo <= r.0 <= r.1 <= hi,
        v@.subrange(r.0 as int, r.1 as int) == trim(v@.subrange(lo as int, hi as int)),
{
    let mut a = lo;
    while a < hi && is_white_space_char(v[a])
        invariant
            lo <= a <= hi <= v@.len(),
            trim_start(v@.subrange(lo as int, hi as int)) == trim_start(
                v@.subrange(a as int, hi as int),
            ),
        decreases hi - a,
    {
        assert(v@.subrange(a as int, hi as int).drop_first() =~= v@.subrange(
            a + 1,
            hi as int,
        ));
        a = a + 1;
    }
    assert(trim_start(v@.subrange(a as int, hi as int)) == v@.subrange(a as int, hi as int));
    let mut b = hi;
    while b > a && is_white_space_char(v[b - 1])
        invariant
            lo <= a <= b <= hi <= v@.len(),
            trim_start(v@.subrange(lo as int, hi as int)) == v@.subrange(a as int, hi as int),
            trim_end(v@.subrange(a as int, hi as int)) == trim_end(
                v@.subrange(a as int, b as int),
            ),
        decreases b - a,
    {
        assert(v@.subrange(a as int, b as int).drop_last() =~= v@.subrange(
            a as int,
            b - 1,
        ));
        b = b - 1;
    }
    (a, b)
}

/// Whether `v[pos..end]` begins with `p`.
pub fn starts_with_at(v: &Vec<char>, pos: usize, end: usize, p: &Vec<char>) -> (r: bool)
    requires
        pos <= end <= v@.len(),
    ensures
        r == starts_with(v@.subrange(pos as int, end as int), p@),
{
    let ghost s = v@.subrange(pos as int, end as int);
    if p.len() > end - pos {
        return false;
    }
    let mut j: usize = 0;
    while j < p.len()
        invariant
            pos <= end <= v@.len(),
            p@.len() <= end - pos,
            j <= p@.len(),
            s == v@.subrange(pos as int, end as int),
            forall|k: int| 0 <= k < j ==> s[k] == p@[k],
        decreases p@.len() - j,
    {
        if v[pos + j] != p[j] {
            assert(s.subrange(0, p@.len() as int)[j as int] != p@[j as int]);
            return false;
        }
        j = j + 1;
    }
    assert(s.subrange(0, p@.len() as int) =~= p@);
    true
}

/// Whether `v` is exactly `p`.
pub fn equal_chars(v: &Vec<char>, p: &Vec<char>) -> (r: bool)
    ensures
        r == (v@ == p@),
{
    if v.len() != p.len() {
        return false;
    }
    let r = starts_with_at(v, 0, v.len(), p);
    assert(v@.subrange(0, v@.len() as int) =~= v@);
    assert(v@.subrange(0, p@.len() as int) =~= v@);
    r
}

/// Whether `a` and `b` are the same text.
pub fn same_text(a: &str, b: &str) -> (r: bool)
    ensures
        r == (a@ == b@),
{
    equal_chars(&chars_of(a), &chars_of(b))
}

/// Whether some string of `v` is `s`.
pub fn contains_text(v: &Vec<String>, s: &str) -> (r: bool)
    ensures
        r == exists|i: int| 0 <= i < v@.len() && #[trigger] v@[i]@ == s@,
{
    let mut i: usize = 0;
    while i < v.len()
        invariant
            i <= v@.len(),
            forall|j: int| 0 <= j < i ==> #[trigger] v@[j]@ != s@,
        decreases v@.len() - i,
    {
        if same_text(v[i].as_str(), s) {
            return true;
        }
        i = i + 1;
    }
    false
}

pub proof fn lemma_find_from_skip(s: Seq<char>, p: Seq<char>, j: nat, i: nat)
    requires
        j <= i,
        i + p.len() <= s.len() + 1,
        forall|k: int| j <= k < i ==> !occurs_at(s, p, k),
    ensures
        find_from(s, p, j) == find_from(s, p, i),
    decreases i - j,
{
    if j < i {
        lemma_find_from_skip(s, p, j + 1, i);
    }
}

/// The first index at or after `from` at which `p` occurs in `v`.
pub fn find_at(v: &Vec<char>, p: &Vec<char>, from: usize) -> (r: Option<usize>)
    ensures
        r matches Some(i) ==> find_from(v@, p@, from as nat) == Some(i as nat),
        r is None ==> find_from(v@, p@, from as nat) is None,
{
    if p.len() > v.len() || from > v.len() - p.len() {
        return None;
    }
    let last = v.len() - p.len();
    let mut i = from;
    while i <= last
        invariant
            from <= i,
            last + p@.len() == v@.len(),
            i <= last + 1,
            forall|k: int| from <= k < i ==> !occurs_at(v@, p@, k),
        decreases last + 1 - i,
    {
        if starts_with_at(v, i, v.len(), p) {
            assert(v@.subrange(i as int, v@.len() as int).subrange(0, p@.len() as int)
                =~= v@.subrange(i as int, i + p@.len()));
            proof {
                lemma_find_from_skip(v@, p@, from as nat, i as nat);
            }
            return Some(i);
        }
        assert(v@.subrange(i as int, v@.len() as int).subrange(0, p@.len() as int)
            =~= v@.subrange(i as int, i + p@.len()));
        if i == last {
            proof {
                lemma_find_from_skip(v@, p@, from as nat, (i + 1) as nat);
            }
            return None;
        }
        i = i + 1;
    }
    proof {
        lemma_find_from_skip(v@, p@, from as nat, i as nat);
    }
    None
}

/// The index of the first `c` in `v` at or after `from`, or `v.len()`.
pub fn next_char_at(v: &Vec<char>, c: char, from: usize) -> (r: usize)
    requires
        from <= v@.len(),
    ensures
        r == next_char(v@, c, from as nat),
{
    let mut i = from;
    while i < v.len() && v[i] != c
        invariant
            from <= i <= v@.len(),
            next_char(v@, c, from as nat) == next_char(v@, c, i as nat),
        decreases v@.len() - i,
    {
        i = i + 1;
    }
    i
}

/// `base` joined with `comp` as a path (see `join_path`).
pub fn join(base: &str, comp: &str) -> (r: String)
    ensures
        r@ == join_path(base@, comp@),
{
    let b = chars_of(base);
    let c = chars_of(comp);
    if c.len() > 0 && c[0] == '/' {
        return string_of(&c, 0, c.len());
    }
    let mut r = string_of(&b, 0, b.len());
    if !(b.len() == 0 || b[b.len() - 1] == '/') {
        push_char(&mut r, '/');
    }
    push_range(&mut r, &c, 0, c.len());
    proof {
        assert(b@.subrange(0, b@.len() as int) =~= b@);
        assert(c@.subrange(0, c@.len() as int) =~= c@);
    }
    r
}


/// The end of `s[..e]` once trailing `/` and trailing `.` components are
/// dropped, as `Path::components` drops them.
pub open spec fn trimmed_end(s: Seq<char>, e: nat) -> nat
    decreases e,
{
    if e == 0 || e > s.len() {
        e
    } else if s[e - 1] == '/' || (s[e - 1] == '.' && (e == 1 || s[e - 2] == '/')) {
        trimmed_end(s, (e - 1) as nat)
    } else {
        e
    }
}

/// The start of the last component of `s[..e]`: just after its last `/`.
pub open spec fn component_start(s: Seq<char>, e: nat) -> nat
    decreases e,
{
    if e == 0 || e > s.len() {
        0
    } else if s[e - 1] == '/' {
        e
    } else {
        component_start(s, (e - 1) as nat)
    }
}

/// The index of the last `.` in `s[lo..hi]`.
pub open spec fn last_dot(s: Seq<char>, lo: nat, hi: nat) -> Option<nat>
    decreases hi,
{
    if hi <= lo || hi > s.len() {
        None
    } else if s[hi - 1] == '.' {
        Some((hi - 1) as nat)
    } else {
        last_dot(s, lo, (hi - 1) as nat)
    }
}

/// The length of the last component of `path` without its trailing `/`
/// and `.` components, its file name; `None` where there is none (the path
/// is empty, `/`, `.` or ends in `..`).
pub open spec fn file_name_bounds(path: Seq<char>) -> Option<(nat, nat)> {
    let e = trimmed_end(path, path.len());
    let start = component_start(path, e);
    if e == 0 || path.subrange(start as int, e as int) == seq!['.', '.'] {
        None
    } else {
        Some((start, e))
    }
}

/// `Path::set_extension` on Unix for a non-empty extension: the path is cut
/// right after the stem of its file name (the name up to its last `.`,
/// unless that `.` is the name's first character) and `.` and the extension
/// are appended; a path without a file name is left as it is.
pub open spec fn set_extension_spec(path: Seq<char>, ext: Seq<char>) -> Seq<char> {
    match file_name_bounds(path) {
        None => path,
        Some((start, e)) => {
            let stem_end = match last_dot(path, start, e) {
                Some(d) => if d > start {
                    d
                } else {
                    e
                },
                None => e,
            };
            path.subrange(0, stem_end as int) + seq!['.'] + ext
        },
    }
}

/// The length of the extension of the file name of `path` (what follows its
/// last `.`, unless that `.` is the name's first character).
pub open spec fn extension_len(path: Seq<char>) -> Option<nat> {
    match file_name_bounds(path) {
        None => None,
        Some((start, e)) => match last_dot(path, start, e) {
            Some(d) => if d > start {
                Some((e - d - 1) as nat)
            } else {
                None
            },
            None => None,
        },
    }
}

/// `Path::with_extension` on Unix for a non-empty extension: where the path
/// has an extension, as many characters as it has are first cut from the
/// end of the path, then the extension is set as `set_extension` does.
pub open spec fn with_extension_spec(path: Seq<char>, ext: Seq<char>) -> Seq<char> {
    let cut = match extension_len(path) {
        Some(l) => path.len() - l,
        None => path.len() as int,
    };
    set_extension_spec(path.subrange(0, cut), ext)
}

/// Where the file name of `v` stands, and where its last `.` is (the index
/// one past it, `start` where there is none).
fn file_name_parts(v: &Vec<char>) -> (r: Option<(usize, usize, usize)>)
    ensures
        match r {
            None => file_name_bounds(v@) is None,
            Some((start, e, d)) => {
                &&& file_name_bounds(v@) == Some((start as nat, e as nat))
                &&& start <= d <= e <= v@.len()
                &&& last_dot(v@, start as nat, e as nat) == (if d > start {
                    Some((d - 1) as nat)
                } else {
                    None::<nat>
                })
            },
        },
{
    let n = v.len();
    let mut e = n;
    while e > 0 && (v[e - 1] == '/' || (v[e - 1] == '.' && (e == 1 || v[e - 2] == '/')))
        invariant
            e <= n == v@.len(),
            trimmed_end(v@, n as nat) == trimmed_end(v@, e as nat),
        decreases e,
    {
        e = e - 1;
    }
    let mut start = e;
    while start > 0 && v[start - 1] != '/'
        invariant
            start <= e <= n == v@.len(),
            component_start(v@, e as nat) == component_start(v@, start as nat),
        decreases start,
    {
        start = start - 1;
    }
    if e == 0 || (e - start == 2 && v[start] == '.' && v[start + 1] == '.') {
        proof {
            if e > 0 {
                assert(v@.subrange(start as int, e as int) =~= seq!['.', '.']);
            }
        }
        return None;
    }
    assert(v@.subrange(start as int, e as int) != seq!['.', '.']) by {
        assert(seq!['.', '.'].len() == 2 && seq!['.', '.'][0] == '.' && seq!['.', '.'][1] == '.');
        if e - start == 2 {
            assert(v@.subrange(start as int, e as int)[0] == v@[start as int]);
            assert(v@.subrange(start as int, e as int)[1] == v@[start + 1]);
        }
    }
    let mut d = e;
    while d > start && v[d - 1] != '.'
        invariant
            start <= d <= e <= n == v@.len(),
            last_dot(v@, start as nat, e as nat) == last_dot(v@, start as nat, d as nat),
        decreases d,
    {
        d = d - 1;
    }
    Some((start, e, d))
}

fn set_extension_of(v: &Vec<char>, ext: &str) -> (r: String)
    ensures
        r@ == set_extension_spec(v@, ext@),
{
    match file_name_parts(v) {
        None => {
            let r = string_of(v, 0, v.len());
            assert(v@.subrange(0, v@.len() as int) =~= v@);
            r
        },
        Some((start, e, d)) => {
            let stem_end = if d - start > 1 {
                d - 1
            } else {
                e
            };
            let mut r = string_of(v, 0, stem_end);
            push_char(&mut r, '.');
            push_str(&mut r, ext);
            r
        },
    }
}

/// `path.with_extension(ext)` for a non-empty `ext`.
pub fn with_extension(path: &str, ext: &str) -> (r: String)
    requires
        ext@.len() > 0,
    ensures
        r@ == with_extension_spec(path@, ext@),
{
    let v = chars_of(path);
    let cut = match file_name_parts(&v) {
        Some((start, e, d)) => if d - start > 1 {
            v.len() - (e - d)
        } else {
            v.len()
        },
        None => v.len(),
    };
    let base = string_of(&v, 0, cut);
    let w = chars_of(base.as_str());
    set_extension_of(&w, ext)
}


/// A path component that `join_path` appends rather than substitutes.
pub open spec fn is_relative(c: Seq<char>) -> bool {
    !(c.len() > 0 && c[0] == '/')
}

/// `d` names a path strictly inside the directory `root`.
pub open spec fn lies_under(root: Seq<char>, d: Seq<char>) -> bool {
    &&& d.len() > root.len()
    &&& d.subrange(0, root.len() as int) == root
    &&& (root.len() == 0 || root.last() == '/' || d[root.len() as int] == '/')
}

/// Joining a non-empty relative component to `root` names a path inside it.
pub proof fn lemma_join_under(root: Seq<char>, c: Seq<char>)
    requires
        is_relative(c),
        c.len() > 0,
    ensures
        lies_under(root, join_path(root, c)),
{
    let d = join_path(root, c);
    assert(d.subrange(0, root.len() as int) =~= root);
}

/// Joining a relative component to a path inside `root` stays inside it.
pub proof fn lemma_join_stays_under(root: Seq<char>, x: Seq<char>, c: Seq<char>)
    requires
        is_relative(c),
        lies_under(root, x),
    ensures
        lies_under(root, join_path(x, c)),
{
    let d = join_path(x, c);
    assert(d.subrange(0, x.len() as int) =~= x);
    assert(d.subrange(0, root.len() as int) =~= x.subrange(0, root.len() as int));
    assert(d[root.len() as int] == x[root.len() as int]);
}

} // verus!
