//! The files generated for the target runtimes: the OpenClaw/ZQClaw agent
//! triple (SOUL.md, AGENTS.md, IDENTITY.md) and the Hermes SKILL.md.
use vstd::prelude::*;
use crate::agent_md::{agent_md, field_value};
use crate::text::{
    chars_of, find_from, lemma_find_from_skip, lemma_next_char_bounds, lines, lines_from, next_char,
    occurs_at, push_char, push_range, push_str, starts_with, strip_cr, trim, trim_bounds, trim_end,
    trim_start,
};

verus! {

broadcast use vstd::string::group_string_axioms;

/// SOUL.md of a claw agent: its persona, the trimmed body.
pub open spec fn soul_md(name: Seq<char>, body: Seq<char>) -> Seq<char> {
    "# "@ + name + " 灵魂\n\n"@ + trim(body) + "\n"@
}

/// AGENTS.md of a claw agent: its behaviour contract.
pub open spec fn agents_md(name: Seq<char>) -> Seq<char> {
    "# "@ + name
        + " 行为契约\n\n- 保持角色一致性，按职能路由任务\n- 输出前自检交付质量\n- 无法处理时上报而不是静默失败\n"@
}

/// IDENTITY.md of a claw agent: its identity and duty.
pub open spec fn identity_md(name: Seq<char>, desc: Seq<char>) -> Seq<char> {
    "# "@ + name + "\n\n- **身份**："@ + name + "\n- **职责**："@ + desc + "\n"@
}

/// `s` with every `"` replaced by `'`.
pub open spec fn unquoted(s: Seq<char>) -> Seq<char> {
    s.map_values(|c: char| if c == '"' { '\'' } else { c })
}

/// A Hermes SKILL.md: front matter with the skill's name and its description
/// (double quotes turned into single ones), then the trimmed body.
pub open spec fn skill_md(skill_name: Seq<char>, desc: Seq<char>, body: Seq<char>) -> Seq<char> {
    "---\nname: "@ + skill_name + "\ndescription: \""@ + unquoted(desc) + "\"\n---\n\n"@ + trim(
        body,
    )
}

/// Appends `trim(s)`.
fn push_trimmed(dst: &mut String, s: &str)
    ensures
        final(dst)@ == old(dst)@ + trim(s@),
{
    let v = chars_of(s);
    let (a, b) = trim_bounds(&v, 0, v.len());
    assert(v@.subrange(0, v@.len() as int) =~= v@);
    push_range(dst, &v, a, b);
}

/// The SOUL.md of agent `name` with prompt `body`.
pub fn soul_file(name: &str, body: &str) -> (r: String)
    ensures
        r@ == soul_md(name@, body@),
{
    let mut r = String::new();
    push_str(&mut r, "# ");
    push_str(&mut r, name);
    push_str(&mut r, " 灵魂\n\n");
    push_trimmed(&mut r, body);
    push_str(&mut r, "\n");
    assert(r@ =~= soul_md(name@, body@));
    r
}

/// The AGENTS.md of agent `name`.
pub fn agents_file(name: &str) -> (r: String)
    ensures
        r@ == agents_md(name@),
{
    let mut r = String::new();
    push_str(&mut r, "# ");
    push_str(&mut r, name);
    push_str(
        &mut r,
        " 行为契约\n\n- 保持角色一致性，按职能路由任务\n- 输出前自检交付质量\n- 无法处理时上报而不是静默失败\n",
    );
    assert(r@ =~= agents_md(name@));
    r
}

/// The IDENTITY.md of agent `name` with duty `desc`.
pub fn identity_file(name: &str, desc: &str) -> (r: String)
    ensures
        r@ == identity_md(name@, desc@),
{
    let mut r = String::new();
    push_str(&mut r, "# ");
    push_str(&mut r, name);
    push_str(&mut r, "\n\n- **身份**：");
    push_str(&mut r, name);
    push_str(&mut r, "\n- **职责**：");
    push_str(&mut r, desc);
    push_str(&mut r, "\n");
    assert(r@ =~= identity_md(name@, desc@));
    r
}

/// Appends `unquoted(s)`.
fn push_unquoted(dst: &mut String, s: &str)
    ensures
        final(dst)@ == old(dst)@ + unquoted(s@),
{
    let v = chars_of(s);
    let mut i: usize = 0;
    while i < v.len()
        invariant
            i <= v@.len(),
            v@ == s@,
            dst@ == old(dst)@ + unquoted(v@.subrange(0, i as int)),
        decreases v@.len() - i,
    {
        let c = v[i];
        if c == '"' {
            push_char(dst, '\'');
        } else {
            push_char(dst, c);
        }
        i = i + 1;
        assert(unquoted(v@.subrange(0, i as int)) =~= unquoted(v@.subrange(0, i - 1)).push(
            if c == '"' {
                '\''
            } else {
                c
            },
        ));
    }
    assert(v@.subrange(0, v@.len() as int) =~= v@);
}

/// The SKILL.md of Hermes skill `skill_name`.
pub fn skill_file(skill_name: &str, desc: &str, body: &str) -> (r: String)
    ensures
        r@ == skill_md(skill_name@, desc@, body@),
{
    let mut r = String::new();
    push_str(&mut r, "---\nname: ");
    push_str(&mut r, skill_name);
    push_str(&mut r, "\ndescription: \"");
    push_unquoted(&mut r, desc);
    push_str(&mut r, "\"\n---\n\n");
    push_trimmed(&mut r, body);
    assert(r@ =~= skill_md(skill_name@, desc@, body@));
    r
}


/// The first line break of `t` from `i` on is at `e` when `t[e]` is one and
/// none lies between.
proof fn lemma_next_newline(t: Seq<char>, i: nat, e: nat)
    requires
        i <= e < t.len(),
        t[e as int] == '\n',
        forall|j: int| i <= j < e ==> t[j] != '\n',
    ensures
        next_char(t, '\n', i) == e,
{
    lemma_next_char_bounds(t, '\n', i);
}

/// A SKILL.md written for a skill whose name is trimmed and holds no line
/// break, with a description that holds none either, reads back as that
/// name, the description in double quotes (its own double quotes turned
/// into single ones), and the trimmed body after the blank line.
pub proof fn skill_md_parses_back(name: Seq<char>, desc: Seq<char>, body: Seq<char>)
    requires
        trim(name) == name,
        forall|i: int| 0 <= i < name.len() ==> name[i] != '\n',
        forall|i: int| 0 <= i < desc.len() ==> desc[i] != '\n',
    ensures
        agent_md(skill_md(name, desc, body)) == (
            name,
            "\""@ + unquoted(desc) + "\""@,
            "\n\n"@ + trim(body),
        ),
{
    reveal_strlit("---\nname: ");
    reveal_strlit("\ndescription: \"");
    reveal_strlit("\"\n---\n\n");
    reveal_strlit("---");
    reveal_strlit("\n---");
    reveal_strlit("name:");
    reveal_strlit("description:");
    reveal_strlit("\"");
    reveal_strlit("\n\n");
    let u = unquoted(desc);
    let n: int = name.len() as int;
    let m: int = u.len() as int;
    let tb = trim(body);
    let t = skill_md(name, desc, body);
    let a = "---\nname: "@;
    let b = "\ndescription: \""@;
    let c = "\"\n---\n\n"@;
    assert(t =~= a + name + b + u + c + tb);
    assert forall|i: int| 0 <= i < m implies u[i] != '\n' by {
        assert(u[i] == (if desc[i] == '"' {
            '\''
        } else {
            desc[i]
        }));
    }
    let ki: int = 26 + n + m;
    let k: nat = ki as nat;
    assert(t.len() == 32 + n + m + tb.len());
    // where t has its characters
    assert forall|j: int| 0 <= j < 10 implies t[j] == a[j] by {}
    assert forall|j: int| 0 <= j < n implies t[10 + j] == name[j] by {}
    assert forall|j: int| 0 <= j < 15 implies t[10 + n + j] == b[j] by {}
    assert forall|j: int| 0 <= j < m implies t[25 + n + j] == u[j] by {}
    assert forall|j: int| 0 <= j < 7 implies t[25 + n + m + j] == c[j] by {}
    assert forall|j: int| 0 <= j < tb.len() implies t[32 + n + m + j] == tb[j] by {}
    // the front matter closes at k
    let p = "\n---"@;
    assert(t.subrange(ki, ki + 4) =~= p) by {
        assert(t[ki] == c[1]);
        assert(t[ki + 1] == c[2]);
        assert(t[ki + 2] == c[3]);
        assert(t[ki + 3] == c[4]);
    }
    assert forall|j: int| 3 <= j < k implies !occurs_at(t, p, j) by {
        if occurs_at(t, p, j) {
            assert(t.subrange(j, j + 4)[0] == t[j]);
            assert(t.subrange(j, j + 4)[1] == t[j + 1]);
            if j < 10 {
                assert(t[j] == a[j]);
                if j == 3 {
                    assert(t[4] == a[4]);
                }
            } else if j < 10 + n {
                assert(t[j] == name[j - 10]);
            } else if j < 25 + n {
                assert(t[j] == b[j - 10 - n]);
                if j == 10 + n {
                    assert(t[j + 1] == b[1]);
                }
            } else if j < 25 + n + m {
                assert(t[j] == u[j - 25 - n]);
            } else {
                assert(t[j] == c[0]);
            }
        }
    }
    lemma_find_from_skip(t, p, 3, k);
    assert(find_from(t, p, k) == Some(k));
    assert(starts_with(t, "---"@)) by {
        assert(t.subrange(0, 3) =~= "---"@);
    }
    // the front matter and its lines
    let fm = t.subrange(3, ki);
    assert(fm =~= "\nname: "@ + name + b + u + "\""@) by {
        reveal_strlit("\nname: ");
    }
    let line1 = "name: "@ + name;
    let line2 = "description: \""@ + u + "\""@;
    assert(fm.len() == 23 + n + m);
    lemma_next_newline(fm, 0, 0);
    assert(strip_cr(fm.subrange(0, 0)) =~= seq![]);
    assert forall|j: int| 1 <= j < 7 + n implies fm[j] != '\n' by {
        reveal_strlit("name: ");
        if j >= 7 {
            assert(fm[j] == name[j - 7]);
        } else {
            assert(fm[j] == t[j + 3]);
        }
    }
    assert(fm[7 + n] == '\n');
    lemma_next_newline(fm, 1, (7 + n) as nat);
    reveal_strlit("name: ");
    reveal_strlit("description: \"");
    assert(fm.subrange(1, 7 + n) =~= line1);
    assert(strip_cr(line1) == line1) by {
        if n > 0 {
            assert(line1.last() == name.last());
            assert(name.last() != '\r') by {
                assert(trim_end(trim_start(name)) == name);
                assert(trim_start(name).len() >= trim_end(trim_start(name)).len()) by {
                    lemma_trim_end_shorter(trim_start(name));
                }
                lemma_trim_start_suffix(name);
                lemma_trim_end_last(trim_start(name));
            }
        } else {
            assert(line1.last() == ' ');
        }
    }
    assert forall|j: int| 8 + n <= j < fm.len() implies fm[j] != '\n' by {
        if j < 22 + n {
            assert(fm[j] == b[j - 7 - n]);
        } else if j < 22 + n + m {
            assert(fm[j] == u[j - 22 - n]);
        } else {
            assert(fm[j] == '"');
        }
    }
    lemma_next_char_bounds(fm, '\n', (8 + n) as nat);
    assert(next_char(fm, '\n', (8 + n) as nat) == fm.len());
    assert(fm.subrange(8 + n, fm.len() as int) =~= line2);
    assert(lines_from(fm, (8 + n) as nat) =~= seq![line2]);
    assert(lines_from(fm, 1) =~= seq![line1, line2]);
    assert(lines(fm) =~= seq![seq![], line1, line2]);
    // the two fields
    let ls = lines(fm);
    assert(!starts_with(line2, "name:"@)) by {
        assert(line2.subrange(0, 5)[0] == 'd');
    }
    assert(ls.drop_last() =~= seq![seq![], line1]);
    assert(starts_with(line1, "name:"@)) by {
        assert(line1.subrange(0, 5) =~= "name:"@);
    }
    assert(line1.subrange(5, line1.len() as int) =~= seq![' '] + name);
    assert(trim_start(seq![' '] + name) == trim_start(name)) by {
        assert((seq![' '] + name).drop_first() =~= name);
    }
    assert(ls.last() == line2);
    assert(field_value(ls, "name:"@) == field_value(ls.drop_last(), "name:"@));
    assert(ls.drop_last().last() == line1);
    assert(field_value(ls.drop_last(), "name:"@) == trim(line1.subrange(5, line1.len() as int)));
    assert(field_value(ls, "name:"@) == name);
    assert(starts_with(line2, "description:"@)) by {
        assert(line2.subrange(0, 12) =~= "description:"@);
    }
    let q = "\""@ + u + "\""@;
    assert(line2.subrange(12, line2.len() as int) =~= seq![' '] + q);
    assert(trim_start(q) == q) by {
        assert(q[0] == '"');
        assert(!crate::text::is_white_space('"'));
    }
    assert(trim_start(seq![' '] + q) == q) by {
        assert((seq![' '] + q).drop_first() =~= q);
        assert(crate::text::is_white_space(' '));
    }
    assert(trim_end(q) == q) by {
        assert(q.last() == '"');
    }
    assert(field_value(ls, "description:"@) == q);
    // the body
    assert(t.subrange(ki + 4, t.len() as int) =~= "\n\n"@ + tb);
}

proof fn lemma_trim_end_shorter(s: Seq<char>)
    ensures
        trim_end(s).len() <= s.len(),
    decreases s.len(),
{
    if s.len() > 0 && crate::text::is_white_space(s.last()) {
        lemma_trim_end_shorter(s.drop_last());
    }
}

proof fn lemma_trim_start_suffix(s: Seq<char>)
    ensures
        trim_start(s).len() <= s.len(),
        trim_start(s) == s.subrange(s.len() - trim_start(s).len(), s.len() as int),
    decreases s.len(),
{
    if s.len() > 0 && crate::text::is_white_space(s[0]) {
        lemma_trim_start_suffix(s.drop_first());
        assert(trim_start(s) =~= s.subrange(s.len() - trim_start(s).len(), s.len() as int));
    } else {
        assert(s.subrange(0, s.len() as int) =~= s);
    }
}

proof fn lemma_trim_end_last(s: Seq<char>)
    ensures
        trim_end(s).len() > 0 ==> !crate::text::is_white_space(trim_end(s).last()),
    decreases s.len(),
{
    if s.len() > 0 && crate::text::is_white_space(s.last()) {
        lemma_trim_end_last(s.drop_last());
    }
}

} // verus!
