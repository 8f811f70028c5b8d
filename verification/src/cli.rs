//! The headless command line: `--cli --experts <path> [--list | --config-dir
//! <path> --select a,b|all] [--uninstall]`, the plugin selection it makes and
//! the lines it prints.
use vstd::prelude::*;
use crate::catalog::PluginInfo;
use crate::clock::{decimal, push_decimal};
use crate::text::{
    chars_of, lemma_next_char_bounds, next_char_at, owned, push_str, same_text, split_from, string_of,
    trim, trim_bounds,
};

verus! {

broadcast use vstd::string::group_string_axioms;

/// Whether `flag` is among `args`.
pub open spec fn has_flag(args: Seq<String>, flag: Seq<char>) -> bool {
    exists|i: int| 0 <= i < args.len() && #[trigger] args[i]@ == flag
}

/// The argument after the first occurrence, at or after index `i`, of
/// `flag` that has an argument after it.
pub open spec fn flag_value_from(args: Seq<String>, flag: Seq<char>, i: nat) -> Option<Seq<char>>
    decreases args.len() - i,
{
    if i + 1 >= args.len() {
        None
    } else if args[i as int]@ == flag {
        Some(args[i + 1int]@)
    } else {
        flag_value_from(args, flag, i + 1)
    }
}

/// Decides `has_flag`.
pub fn flag_present(args: &Vec<String>, flag: &str) -> (r: bool)
    ensures
        r == has_flag(args@, flag@),
{
    let mut i: usize = 0;
    while i < args.len()
        invariant
            i <= args@.len(),
            forall|j: int| 0 <= j < i ==> #[trigger] args@[j]@ != flag@,
        decreases args@.len() - i,
    {
        if same_text(args[i].as_str(), flag) {
            return true;
        }
        i = i + 1;
    }
    false
}

/// The value given to `flag`: the argument after its first occurrence.
pub fn flag_value(args: &Vec<String>, flag: &str) -> (r: Option<String>)
    ensures
        match r {
            Some(v) => flag_value_from(args@, flag@, 0) == Some(v@),
            None => flag_value_from(args@, flag@, 0) is None,
        },
{
    let mut i: usize = 0;
    while args.len() > 0 && i < args.len() - 1
        invariant
            flag_value_from(args@, flag@, 0) == flag_value_from(args@, flag@, i as nat),
        decreases args@.len() - i,
    {
        if same_text(args[i].as_str(), flag) {
            return Some(owned(args[i + 1].as_str()));
        }
        i = i + 1;
    }
    None
}

/// What the command line asks for.
pub struct CliOptions {
    /// `--experts <path>`.
    pub experts: Option<String>,
    /// `--list`.
    pub list: bool,
    /// `--config-dir <path>`, as given.
    pub config_dir: Option<String>,
    /// `--select <names>`.
    pub select: Option<String>,
    /// `--uninstall`.
    pub uninstall: bool,
}

/// The value spec of an optional string.
pub open spec fn opt_text(o: Option<String>) -> Option<Seq<char>> {
    match o {
        Some(s) => Some(s@),
        None => None,
    }
}

/// Whether the program runs headless: `--cli` or `--list` is given.
pub fn is_cli(args: &Vec<String>) -> (r: bool)
    ensures
        r == (has_flag(args@, "--cli"@) || has_flag(args@, "--list"@)),
{
    flag_present(args, "--cli") || flag_present(args, "--list")
}

/// The options that `args` give.
pub fn parse_cli(args: &Vec<String>) -> (r: CliOptions)
    ensures
        opt_text(r.experts) == flag_value_from(args@, "--experts"@, 0),
        r.list == has_flag(args@, "--list"@),
        opt_text(r.config_dir) == flag_value_from(args@, "--config-dir"@, 0),
        opt_text(r.select) == flag_value_from(args@, "--select"@, 0),
        r.uninstall == has_flag(args@, "--uninstall"@),
{
    CliOptions {
        experts: flag_value(args, "--experts"),
        list: flag_present(args, "--list"),
        config_dir: flag_value(args, "--config-dir"),
        select: flag_value(args, "--select"),
        uninstall: flag_present(args, "--uninstall"),
    }
}

/// The names a selection asks for: every plugin of the catalog when it is
/// absent or `all`, else its comma-separated names, each trimmed.
pub open spec fn selection_spec(select: Option<Seq<char>>, catalog: Seq<PluginInfo>) -> Seq<Seq<char>> {
    match select {
        Some(s) => if s == "all"@ {
            catalog.map_values(|p: PluginInfo| p.name@)
        } else {
            split_from(s, ',', 0).map_values(|x: Seq<char>| trim(x))
        },
        None => catalog.map_values(|p: PluginInfo| p.name@),
    }
}

fn catalog_names(catalog: &Vec<PluginInfo>) -> (r: Vec<String>)
    ensures
        r@.map_values(|s: String| s@) == catalog@.map_values(|p: PluginInfo| p.name@),
{
    let mut r: Vec<String> = Vec::new();
    let mut i: usize = 0;
    while i < catalog.len()
        invariant
            i <= catalog@.len(),
            r@.map_values(|s: String| s@) == catalog@.take(i as int).map_values(
                |p: PluginInfo| p.name@,
            ),
        decreases catalog@.len() - i,
    {
        let ghost before = r@;
        r.push(owned(catalog[i].name.as_str()));
        assert(r@.map_values(|s: String| s@) =~= before.map_values(|s: String| s@).push(
            catalog@[i as int].name@,
        ));
        assert(catalog@.take(i + 1).map_values(|p: PluginInfo| p.name@) =~= catalog@.take(
            i as int,
        ).map_values(|p: PluginInfo| p.name@).push(catalog@[i as int].name@));
        i = i + 1;
    }
    assert(catalog@.take(catalog@.len() as int) =~= catalog@);
    r
}

fn split_trimmed(s: &str) -> (r: Vec<String>)
    ensures
        r@.map_values(|x: String| x@) == split_from(s@, ',', 0).map_values(|x: Seq<char>| trim(x)),
{
    let v = chars_of(s);
    let mut r: Vec<String> = Vec::new();
    let mut pos: usize = 0;
    let ghost mut done: Seq<Seq<char>> = seq![];
    loop
        invariant
            pos <= v@.len(),
            v@ == s@,
            split_from(v@, ',', 0) == done + split_from(v@, ',', pos as nat),
            r@.map_values(|x: String| x@) == done.map_values(|x: Seq<char>| trim(x)),
        decreases v@.len() - pos,
    {
        let e = next_char_at(&v, ',', pos);
        proof {
            lemma_next_char_bounds(v@, ',', pos as nat);
        }
        let (a, b) = trim_bounds(&v, pos, e);
        let ghost before = r@;
        let ghost piece = v@.subrange(pos as int, e as int);
        r.push(string_of(&v, a, b));
        assert(r@.map_values(|x: String| x@) =~= before.map_values(|x: String| x@).push(
            trim(piece),
        ));
        assert(done.push(piece).map_values(|x: Seq<char>| trim(x)) =~= done.map_values(
            |x: Seq<char>| trim(x),
        ).push(trim(piece)));
        proof {
            if e < v@.len() {
                assert(done + split_from(v@, ',', pos as nat) =~= done.push(piece) + split_from(
                    v@,
                    ',',
                    (e + 1) as nat,
                ));
            } else {
                assert(done + split_from(v@, ',', pos as nat) =~= done.push(piece));
            }
            done = done.push(piece);
        }
        if e == v.len() {
            assert(split_from(v@, ',', 0) =~= done);
            return r;
        }
        pos = e + 1;
    }
}

/// The plugin names that the selection `select` asks for from `catalog`.
pub fn selection(select: Option<&str>, catalog: &Vec<PluginInfo>) -> (r: Vec<String>)
    ensures
        r@.map_values(|s: String| s@) == selection_spec(
            match select {
                Some(s) => Some(s@),
                None => None,
            },
            catalog@,
        ),
{
    match select {
        Some(s) => if same_text(s, "all") {
            catalog_names(catalog)
        } else {
            split_trimmed(s)
        },
        None => catalog_names(catalog),
    }
}

/// The line `--list` prints for a plugin: name, kind, display name,
/// separated by tabs.
pub open spec fn list_line_spec(p: PluginInfo) -> Seq<char> {
    p.name@ + "\t"@ + (if p.is_team {
        "team"@
    } else {
        "agent"@
    }) + "\t"@ + p.display_name@
}

/// The line `--list` prints for `p`.
pub fn list_line(p: &PluginInfo) -> (r: String)
    ensures
        r@ == list_line_spec(*p),
{
    let mut r = owned(p.name.as_str());
    push_str(&mut r, "\t");
    if p.is_team {
        push_str(&mut r, "team");
    } else {
        push_str(&mut r, "agent");
    }
    push_str(&mut r, "\t");
    push_str(&mut r, p.display_name.as_str());
    r
}

/// The report of a finished install or uninstall: `<verb> <n> plugins
/// <preposition> <dir>`.
pub open spec fn report_spec(verb: Seq<char>, n: nat, prep: Seq<char>, dir: Seq<char>) -> Seq<char> {
    verb + " "@ + decimal(n) + " plugins "@ + prep + " "@ + dir
}

fn report(verb: &str, n: usize, prep: &str, dir: &str) -> (r: String)
    ensures
        r@ == report_spec(verb@, n as nat, prep@, dir@),
{
    let mut r = owned(verb);
    push_str(&mut r, " ");
    push_decimal(&mut r, n as u64);
    push_str(&mut r, " plugins ");
    push_str(&mut r, prep);
    push_str(&mut r, " ");
    push_str(&mut r, dir);
    r
}

/// `installed <n> plugins into <dir>`.
pub fn installed_report(n: usize, dir: &str) -> (r: String)
    ensures
        r@ == report_spec("installed"@, n as nat, "into"@, dir@),
{
    report("installed", n, "into", dir)
}

/// `uninstalled <n> plugins from <dir>`.
pub fn uninstalled_report(n: usize, dir: &str) -> (r: String)
    ensures
        r@ == report_spec("uninstalled"@, n as nat, "from"@, dir@),
{
    report("uninstalled", n, "from", dir)
}

} // verus!
