//! Where things are looked for: `~/` expansion, the WorkBuddy configuration
//! directory and application bundle, and the experts tree shipped beside the
//! executable.
use vstd::prelude::*;
use crate::text::{chars_of, join, join_path, owned, push_str, starts_with, starts_with_at, string_of};

verus! {

broadcast use vstd::string::group_string_axioms;

/// `path` with a leading `~/` replaced by the home directory `home`, when
/// it is known.
pub open spec fn expand_home_spec(path: Seq<char>, home: Option<Seq<char>>) -> Seq<char> {
    if starts_with(path, "~/"@) && home is Some {
        join_path(home->0, path.subrange(2, path.len() as int))
    } else {
        path
    }
}

/// `path` with a leading `~/` replaced by the home directory `home`.
pub fn expand_home(path: &str, home: Option<&str>) -> (r: String)
    ensures
        r@ == expand_home_spec(path@, match home {
            Some(h) => Some(h@),
            None => None,
        }),
{
    let p = chars_of(path);
    let tilde = chars_of("~/");
    assert(p@.subrange(0, p@.len() as int) =~= p@);
    match home {
        Some(h) => {
            if starts_with_at(&p, 0, p.len(), &tilde) {
                proof {
                    reveal_strlit("~/");
                }
                let rest = string_of(&p, 2, p.len());
                return join(h, rest.as_str());
            }
        },
        None => {},
    }
    owned(path)
}

/// The configuration directory in use: the one given, else `~/.workbuddy`,
/// with `~/` expanded.
pub fn config_dir_or_default(config_dir: Option<&str>, home: Option<&str>) -> (r: String)
    ensures
        r@ == expand_home_spec(
            match config_dir {
                Some(d) => d@,
                None => "~/.workbuddy"@,
            },
            match home {
                Some(h) => Some(h@),
                None => None,
            },
        ),
{
    match config_dir {
        Some(d) => expand_home(d, home),
        None => expand_home("~/.workbuddy", home),
    }
}

/// Where the WorkBuddy application bundle may be, in the order searched,
/// given the `HOME` variable (empty when unset).
pub fn workbuddy_app_candidates(home_var: &str) -> (r: Vec<String>)
    ensures
        r@.len() == 3,
        r@[0]@ == "/Applications/WorkBuddy.app"@,
        r@[1]@ == home_var@ + "/Applications/WorkBuddy.app"@,
        r@[2]@ == "/Applications/Agent Buddy.app"@,
{
    let mut in_home = owned(home_var);
    push_str(&mut in_home, "/Applications/WorkBuddy.app");
    let mut r: Vec<String> = Vec::new();
    r.push(owned("/Applications/WorkBuddy.app"));
    r.push(in_home);
    r.push(owned("/Applications/Agent Buddy.app"));
    r
}

/// The first path of `probes` that was found, if any.
pub open spec fn first_found(probes: Seq<(String, bool)>) -> Option<Seq<char>>
    decreases probes.len(),
{
    if probes.len() == 0 {
        None
    } else if probes[0].1 {
        Some(probes[0].0@)
    } else {
        first_found(probes.drop_first())
    }
}

/// The first path of `probes` (paths, each with whether it was found) that
/// was found.
pub fn first_present(probes: &Vec<(String, bool)>) -> (r: Option<String>)
    ensures
        match r {
            Some(p) => first_found(probes@) == Some(p@),
            None => first_found(probes@) is None,
        },
{
    let mut i: usize = 0;
    assert(probes@.subrange(0, probes@.len() as int) =~= probes@);
    while i < probes.len()
        invariant
            i <= probes@.len(),
            first_found(probes@) == first_found(probes@.subrange(i as int, probes@.len() as int)),
        decreases probes@.len() - i,
    {
        assert(probes@.subrange(i as int, probes@.len() as int).drop_first() =~= probes@.subrange(
            i + 1,
            probes@.len() as int,
        ));
        if probes[i].1 {
            return Some(owned(probes[i].0.as_str()));
        }
        i = i + 1;
    }
    None
}

/// Where the experts tree may be, in the order searched: beside the
/// executable in directory `exe_dir`, in the application bundle's
/// resources, one level further up, and in the working directory `cwd`.
pub fn experts_root_candidates(exe_dir: Option<&str>, cwd: &str) -> (r: Vec<String>)
    ensures
        match exe_dir {
            Some(d) => r@.len() == 4 && r@[0]@ == join_path(d@, "experts"@) && r@[1]@ == join_path(
                d@,
                "../Resources/experts"@,
            ) && r@[2]@ == join_path(d@, "../../Resources/experts"@) && r@[3]@ == join_path(
                cwd@,
                "experts"@,
            ),
            None => r@.len() == 1 && r@[0]@ == join_path(cwd@, "experts"@),
        },
{
    let mut r: Vec<String> = Vec::new();
    match exe_dir {
        Some(d) => {
            r.push(join(d, "experts"));
            r.push(join(d, "../Resources/experts"));
            r.push(join(d, "../../Resources/experts"));
        },
        None => {},
    }
    r.push(join(cwd, "experts"));
    r
}

/// The experts tree: the first candidate that is a directory, else the one
/// in the working directory `cwd`.
pub fn pick_experts_root(probes: &Vec<(String, bool)>, cwd: &str) -> (r: String)
    ensures
        r@ == match first_found(probes@) {
            Some(p) => p,
            None => join_path(cwd@, "experts"@),
        },
{
    match first_present(probes) {
        Some(p) => p,
        None => join(cwd, "experts"),
    }
}

} // verus!
