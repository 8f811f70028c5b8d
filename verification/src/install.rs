//! Installing plugins into the OpenClaw, ZQClaw and Hermes runtimes: the
//! file-system steps that turn each plugin's agent definitions into the
//! runtime's own files, and which directories an uninstall removes.
use vstd::prelude::*;
use crate::agent_md::{agent_md, parse_agent_md, AgentDef};
use crate::content::{
    agents_file, agents_md, identity_file, identity_md, skill_file, skill_md, soul_file, soul_md,
};
use crate::runtime::{all_runtimes, reports, RuntimeStatus, TargetRuntime};
use crate::text::{
    is_relative, join, join_path, lemma_join_stays_under, lemma_join_under, lies_under, owned, push_str,
};

verus! {

broadcast use vstd::string::group_string_axioms;

/// A file-system operation, by its paths and contents.
pub enum FsOp {
    CreateDirAll(Seq<char>),
    WriteFile(Seq<char>, Seq<char>),
}

/// A file-system step for the caller to perform.
pub enum FsStep {
    /// Create the directory and its missing parents.
    CreateDirAll(String),
    /// Write the file at the first path with the second as its contents.
    WriteFile(String, String),
}

impl FsStep {
    pub open spec fn op(self) -> FsOp {
        match self {
            FsStep::CreateDirAll(p) => FsOp::CreateDirAll(p@),
            FsStep::WriteFile(p, c) => FsOp::WriteFile(p@, c@),
        }
    }
}

/// The operations that `steps` stand for.
pub open spec fn ops(steps: Seq<FsStep>) -> Seq<FsOp> {
    steps.map_values(|s: FsStep| s.op())
}

/// A plugin as read from the experts tree: its name, the agents of its
/// `agents/*.md` files, and the text of its `SKILL.md` (empty when it has none).
pub struct PluginSource {
    pub name: String,
    pub agents: Vec<AgentDef>,
    pub skill_text: String,
}

/// The directory of a claw agent under the runtime root.
pub open spec fn claw_agent_dir(root: Seq<char>, name: Seq<char>) -> Seq<char> {
    join_path(join_path(join_path(root, "agents"@), name), "agent"@)
}

/// The operations that write one claw agent: its directory, then SOUL.md,
/// AGENTS.md and IDENTITY.md in it.
pub open spec fn claw_unit_ops(root: Seq<char>, name: Seq<char>, desc: Seq<char>, body: Seq<char>) -> Seq<FsOp> {
    let dir = claw_agent_dir(root, name);
    seq![
        FsOp::CreateDirAll(dir),
        FsOp::WriteFile(join_path(dir, "SOUL.md"@), soul_md(name, body)),
        FsOp::WriteFile(join_path(dir, "AGENTS.md"@), agents_md(name)),
        FsOp::WriteFile(join_path(dir, "IDENTITY.md"@), identity_md(name, desc)),
    ]
}

/// The directory of a Hermes skill under the runtime root.
pub open spec fn hermes_skill_dir(root: Seq<char>, skill_name: Seq<char>) -> Seq<char> {
    join_path(join_path(join_path(root, "skills"@), "agentbuddy"@), skill_name)
}

/// The operations that write one Hermes skill: its directory, then SKILL.md.
pub open spec fn hermes_unit_ops(root: Seq<char>, skill_name: Seq<char>, desc: Seq<char>, body: Seq<char>) -> Seq<FsOp> {
    let dir = hermes_skill_dir(root, skill_name);
    seq![
        FsOp::CreateDirAll(dir),
        FsOp::WriteFile(join_path(dir, "SKILL.md"@), skill_md(skill_name, desc, body)),
    ]
}

/// The operations for one agent `a` of plugin `plugin`: a claw agent of the
/// agent's name, or a Hermes skill named `<plugin>-<agent>`.
pub open spec fn agent_unit_ops(rt: TargetRuntime, root: Seq<char>, plugin: Seq<char>, a: AgentDef) -> Seq<FsOp> {
    if rt == TargetRuntime::Hermes {
        hermes_unit_ops(root, plugin + "-"@ + a.name@, a.description@, a.body@)
    } else {
        claw_unit_ops(root, a.name@, a.description@, a.body@)
    }
}

/// The operations for the agents of plugin `plugin`, in order.
pub open spec fn agents_ops(rt: TargetRuntime, root: Seq<char>, plugin: Seq<char>, agents: Seq<AgentDef>) -> Seq<FsOp>
    decreases agents.len(),
{
    if agents.len() == 0 {
        seq![]
    } else {
        agents_ops(rt, root, plugin, agents.drop_last()) + agent_unit_ops(
            rt,
            root,
            plugin,
            agents.last(),
        )
    }
}

/// The operations for plugin `p`: one unit per agent, or, for a plugin
/// without agents, one unit named after the plugin made from its SKILL.md.
pub open spec fn plugin_ops(rt: TargetRuntime, root: Seq<char>, p: PluginSource) -> Seq<FsOp> {
    if p.agents@.len() > 0 {
        agents_ops(rt, root, p.name@, p.agents@)
    } else {
        let (_, desc, body) = agent_md(p.skill_text@);
        if rt == TargetRuntime::Hermes {
            hermes_unit_ops(root, p.name@, desc, body)
        } else {
            claw_unit_ops(root, p.name@, desc, body)
        }
    }
}

/// How many agents or skills installing `p` counts.
pub open spec fn plugin_count(p: PluginSource) -> int {
    if p.agents@.len() > 0 {
        p.agents@.len() as int
    } else {
        1
    }
}

/// The operations for `ps`, plugin after plugin.
pub open spec fn plan_ops(rt: TargetRuntime, root: Seq<char>, ps: Seq<PluginSource>) -> Seq<FsOp>
    decreases ps.len(),
{
    if ps.len() == 0 {
        seq![]
    } else {
        plan_ops(rt, root, ps.drop_last()) + plugin_ops(rt, root, ps.last())
    }
}

/// How many agents or skills installing `ps` counts.
pub open spec fn plan_count(ps: Seq<PluginSource>) -> int
    decreases ps.len(),
{
    if ps.len() == 0 {
        0
    } else {
        plan_count(ps.drop_last()) + plugin_count(ps.last())
    }
}

/// The number of steps each installed agent or skill takes.
pub open spec fn unit_width(rt: TargetRuntime) -> int {
    if rt == TargetRuntime::Hermes {
        2
    } else {
        4
    }
}

/// How many directories `ops` create.
pub open spec fn dirs_created(ops: Seq<FsOp>) -> int
    decreases ops.len(),
{
    if ops.len() == 0 {
        0
    } else {
        dirs_created(ops.drop_last()) + if ops.last() is CreateDirAll {
            1int
        } else {
            0int
        }
    }
}

proof fn lemma_dirs_created_concat(a: Seq<FsOp>, b: Seq<FsOp>)
    ensures
        dirs_created(a + b) == dirs_created(a) + dirs_created(b),
    decreases b.len(),
{
    if b.len() == 0 {
        assert(a + b =~= a);
    } else {
        lemma_dirs_created_concat(a, b.drop_last());
        assert((a + b).drop_last() =~= a + b.drop_last());
    }
}

proof fn lemma_units_create_one(root: Seq<char>, n: Seq<char>, d: Seq<char>, b: Seq<char>)
    ensures
        dirs_created(claw_unit_ops(root, n, d, b)) == 1,
        dirs_created(hermes_unit_ops(root, n, d, b)) == 1,
{
    reveal_with_fuel(dirs_created, 5);
    let c = claw_unit_ops(root, n, d, b);
    assert(c.drop_last().drop_last().drop_last().drop_last() =~= seq![]);
    assert(c.drop_last().drop_last().drop_last().last() == c[0]);
    assert(c.drop_last().drop_last().last() == c[1]);
    assert(c.drop_last().last() == c[2]);
    let h = hermes_unit_ops(root, n, d, b);
    assert(h.drop_last().drop_last() =~= seq![]);
    assert(h.drop_last().last() == h[0]);
}

proof fn lemma_agents_create(rt: TargetRuntime, root: Seq<char>, plugin: Seq<char>, agents: Seq<AgentDef>)
    ensures
        dirs_created(agents_ops(rt, root, plugin, agents)) == agents.len(),
    decreases agents.len(),
{
    if agents.len() > 0 {
        lemma_agents_create(rt, root, plugin, agents.drop_last());
        lemma_dirs_created_concat(
            agents_ops(rt, root, plugin, agents.drop_last()),
            agent_unit_ops(rt, root, plugin, agents.last()),
        );
        let a = agents.last();
        lemma_units_create_one(root, a.name@, a.description@, a.body@);
        lemma_units_create_one(root, plugin + "-"@ + a.name@, a.description@, a.body@);
    }
}

/// The number of agents or skills an install reports equals the number of
/// agent or skill directories its steps create: each one gets exactly one.
pub proof fn install_count_is_dirs_created(rt: TargetRuntime, root: Seq<char>, ps: Seq<PluginSource>)
    requires
        rt != TargetRuntime::Workbuddy,
    ensures
        dirs_created(plan_ops(rt, root, ps)) == plan_count(ps),
    decreases ps.len(),
{
    if ps.len() > 0 {
        let p = ps.last();
        install_count_is_dirs_created(rt, root, ps.drop_last());
        lemma_dirs_created_concat(plan_ops(rt, root, ps.drop_last()), plugin_ops(rt, root, p));
        if p.agents@.len() > 0 {
            lemma_agents_create(rt, root, p.name@, p.agents@);
        } else {
            let (_, desc, body) = agent_md(p.skill_text@);
            lemma_units_create_one(root, p.name@, desc, body);
        }
    }
}

/// What installing into a runtime amounts to.
pub enum InstallPlan {
    /// WorkBuddy installs through its own engine, given the plugin names.
    UseEngine,
    /// Perform `steps` in order, stopping at the first that fails;
    /// `total` agents or skills are then installed.
    Steps { steps: Vec<FsStep>, total: usize },
}

fn push_claw_unit(steps: &mut Vec<FsStep>, root: &str, name: &str, desc: &str, body: &str)
    ensures
        ops(final(steps)@) == ops(old(steps)@) + claw_unit_ops(root@, name@, desc@, body@),
        final(steps)@.len() == old(steps)@.len() + 4,
{
    let agents_dir = join(root, "agents");
    let named = join(agents_dir.as_str(), name);
    let dir = join(named.as_str(), "agent");
    let soul = join(dir.as_str(), "SOUL.md");
    let agents = join(dir.as_str(), "AGENTS.md");
    let identity = join(dir.as_str(), "IDENTITY.md");
    let ghost s0 = steps@;
    steps.push(FsStep::CreateDirAll(dir));
    steps.push(FsStep::WriteFile(soul, soul_file(name, body)));
    steps.push(FsStep::WriteFile(agents, agents_file(name)));
    steps.push(FsStep::WriteFile(identity, identity_file(name, desc)));
    assert(ops(steps@) =~= ops(s0) + claw_unit_ops(root@, name@, desc@, body@));
}

fn push_hermes_unit(steps: &mut Vec<FsStep>, root: &str, skill_name: &str, desc: &str, body: &str)
    ensures
        ops(final(steps)@) == ops(old(steps)@) + hermes_unit_ops(root@, skill_name@, desc@, body@),
        final(steps)@.len() == old(steps)@.len() + 2,
{
    let skills = join(root, "skills");
    let ours = join(skills.as_str(), "agentbuddy");
    let dir = join(ours.as_str(), skill_name);
    let file = join(dir.as_str(), "SKILL.md");
    let ghost s0 = steps@;
    steps.push(FsStep::CreateDirAll(dir));
    steps.push(FsStep::WriteFile(file, skill_file(skill_name, desc, body)));
    assert(ops(steps@) =~= ops(s0) + hermes_unit_ops(root@, skill_name@, desc@, body@));
}

/// Appends the steps for plugin `p` and counts its agents or skills.
fn push_plugin(
    steps: &mut Vec<FsStep>,
    total: &mut usize,
    rt: TargetRuntime,
    root: &str,
    p: &PluginSource,
)
    requires
        rt != TargetRuntime::Workbuddy,
        old(steps)@.len() == unit_width(rt) * *old(total),
    ensures
        ops(final(steps)@) == ops(old(steps)@) + plugin_ops(rt, root@, *p),
        *final(total) == *old(total) + plugin_count(*p),
        final(steps)@.len() == unit_width(rt) * *final(total),
{
    let hermes = match rt {
        TargetRuntime::Hermes => true,
        _ => false,
    };
    let width: usize = if hermes {
        2
    } else {
        4
    };
    let ghost t0 = *total;
    if p.agents.len() > 0 {
        let ghost s0 = ops(steps@);
        let mut i: usize = 0;
        while i < p.agents.len()
            invariant
                i <= p.agents@.len(),
                rt != TargetRuntime::Workbuddy,
                hermes == (rt == TargetRuntime::Hermes),
                ops(steps@) == s0 + agents_ops(rt, root@, p.name@, p.agents@.take(i as int)),
                steps@.len() == unit_width(rt) * (t0 + i),
            decreases p.agents@.len() - i,
        {
            let a = &p.agents[i];
            if hermes {
                let mut skill_name = owned(p.name.as_str());
                push_str(&mut skill_name, "-");
                push_str(&mut skill_name, a.name.as_str());
                push_hermes_unit(
                    steps,
                    root,
                    skill_name.as_str(),
                    a.description.as_str(),
                    a.body.as_str(),
                );
            } else {
                push_claw_unit(steps, root, a.name.as_str(), a.description.as_str(), a.body.as_str());
            }
            assert(p.agents@.take(i + 1).drop_last() =~= p.agents@.take(i as int));
            assert(p.agents@.take(i + 1).last() == p.agents@[i as int]);
            i = i + 1;
        }
        assert(p.agents@.take(p.agents@.len() as int) =~= p.agents@);
    } else {
        let (_, desc, body) = parse_agent_md(p.skill_text.as_str());
        if hermes {
            push_hermes_unit(steps, root, p.name.as_str(), desc.as_str(), body.as_str());
        } else {
            push_claw_unit(steps, root, p.name.as_str(), desc.as_str(), body.as_str());
        }
    }
    // Every agent or skill takes `width` steps, so the count is the steps' number over it.
    *total = steps.len() / width;
}

/// What installing `plugins` into `runtime` under home directory `home`
/// amounts to: WorkBuddy goes through its own engine; any other runtime
/// gets, plugin after plugin, the steps that write its agents or skills
/// under the runtime's root directory.
pub fn install_plugins(runtime: TargetRuntime, home: &str, plugins: &Vec<PluginSource>) -> (r:
    InstallPlan)
    ensures
        runtime == TargetRuntime::Workbuddy <==> r is UseEngine,
        runtime != TargetRuntime::Workbuddy ==> (r matches InstallPlan::Steps { steps, total }
            && ops(steps@) == plan_ops(runtime, join_path(home@, runtime.root_dir_spec()), plugins@)
            && total == plan_count(plugins@)),
{
    match runtime {
        TargetRuntime::Workbuddy => InstallPlan::UseEngine,
        _ => {
            let root = runtime.root(home);
            let mut steps: Vec<FsStep> = Vec::new();
            let mut total: usize = 0;
            let mut i: usize = 0;
            while i < plugins.len()
                invariant
                    i <= plugins@.len(),
                    runtime != TargetRuntime::Workbuddy,
                    ops(steps@) == plan_ops(runtime, root@, plugins@.take(i as int)),
                    total == plan_count(plugins@.take(i as int)),
                    steps@.len() == unit_width(runtime) * total,
                decreases plugins@.len() - i,
            {
                push_plugin(&mut steps, &mut total, runtime, root.as_str(), &plugins[i]);
                assert(plugins@.take(i + 1).drop_last() =~= plugins@.take(i as int));
                assert(plugins@.take(i + 1).last() == plugins@[i as int]);
                i = i + 1;
            }
            assert(plugins@.take(plugins@.len() as int) =~= plugins@);
            InstallPlan::Steps { steps, total }
        },
    }
}


/// The directory that uninstalling removes for agent `a` of plugin
/// `plugin`: the claw agent's directory under `agents/`, or the Hermes skill
/// directory `<plugin>-<agent>`.
pub open spec fn agent_removal_dir(rt: TargetRuntime, root: Seq<char>, plugin: Seq<char>, a: AgentDef) -> Seq<char> {
    if rt == TargetRuntime::Hermes {
        hermes_skill_dir(root, plugin + "-"@ + a.name@)
    } else {
        join_path(join_path(root, "agents"@), a.name@)
    }
}

/// The directories that uninstalling removes for the agents of `plugin`.
pub open spec fn agents_removal(rt: TargetRuntime, root: Seq<char>, plugin: Seq<char>, agents: Seq<AgentDef>) -> Seq<Seq<char>>
    decreases agents.len(),
{
    if agents.len() == 0 {
        seq![]
    } else {
        agents_removal(rt, root, plugin, agents.drop_last()).push(
            agent_removal_dir(rt, root, plugin, agents.last()),
        )
    }
}

/// The directories that uninstalling plugin `p` removes: one per member
/// agent of a team plugin, else the one named after the plugin.
pub open spec fn plugin_removal(rt: TargetRuntime, root: Seq<char>, p: PluginSource) -> Seq<Seq<char>> {
    if p.agents@.len() > 0 {
        agents_removal(rt, root, p.name@, p.agents@)
    } else if rt == TargetRuntime::Hermes {
        seq![hermes_skill_dir(root, p.name@)]
    } else {
        seq![join_path(join_path(root, "agents"@), p.name@)]
    }
}

/// The directories that uninstalling `ps` removes, plugin after plugin.
pub open spec fn plan_removal(rt: TargetRuntime, root: Seq<char>, ps: Seq<PluginSource>) -> Seq<Seq<char>>
    decreases ps.len(),
{
    if ps.len() == 0 {
        seq![]
    } else {
        plan_removal(rt, root, ps.drop_last()) + plugin_removal(rt, root, ps.last())
    }
}

/// What uninstalling from a runtime amounts to.
pub enum UninstallPlan {
    /// WorkBuddy uninstalls through its own engine, given the plugin names.
    UseEngine,
    /// Remove each directory of `dirs` in order; when `strict`, only those
    /// that exist, and the first failure ends the uninstall with its error,
    /// otherwise failures are ignored. `total` plugins count as uninstalled.
    Remove { dirs: Vec<String>, strict: bool, total: usize },
}

fn push_removals(dirs: &mut Vec<String>, rt: TargetRuntime, root: &str, p: &PluginSource)
    requires
        rt != TargetRuntime::Workbuddy,
    ensures
        final(dirs)@.map_values(|d: String| d@) == old(dirs)@.map_values(|d: String| d@)
            + plugin_removal(rt, root@, *p),
{
    let hermes = match rt {
        TargetRuntime::Hermes => true,
        _ => false,
    };
    let agents_dir = join(root, "agents");
    let skills = join(root, "skills");
    let ours = join(skills.as_str(), "agentbuddy");
    let ghost d0 = dirs@.map_values(|d: String| d@);
    if p.agents.len() > 0 {
        let mut i: usize = 0;
        while i < p.agents.len()
            invariant
                i <= p.agents@.len(),
                hermes == (rt == TargetRuntime::Hermes),
                agents_dir@ == join_path(root@, "agents"@),
                ours@ == join_path(join_path(root@, "skills"@), "agentbuddy"@),
                dirs@.map_values(|d: String| d@) == d0 + agents_removal(
                    rt,
                    root@,
                    p.name@,
                    p.agents@.take(i as int),
                ),
            decreases p.agents@.len() - i,
        {
            let a = &p.agents[i];
            let d = if hermes {
                let mut skill_name = owned(p.name.as_str());
                push_str(&mut skill_name, "-");
                push_str(&mut skill_name, a.name.as_str());
                join(ours.as_str(), skill_name.as_str())
            } else {
                join(agents_dir.as_str(), a.name.as_str())
            };
            let ghost before = dirs@;
            dirs.push(d);
            assert(p.agents@.take(i + 1).drop_last() =~= p.agents@.take(i as int));
            assert(p.agents@.take(i + 1).last() == p.agents@[i as int]);
            assert(dirs@.map_values(|d: String| d@) =~= before.map_values(|d: String| d@).push(
                agent_removal_dir(rt, root@, p.name@, p.agents@[i as int]),
            ));
            i = i + 1;
        }
        assert(p.agents@.take(p.agents@.len() as int) =~= p.agents@);
    } else {
        let d = if hermes {
            join(ours.as_str(), p.name.as_str())
        } else {
            join(agents_dir.as_str(), p.name.as_str())
        };
        let ghost before = dirs@;
        dirs.push(d);
        assert(dirs@.map_values(|d: String| d@) =~= before.map_values(|d: String| d@)
            + plugin_removal(rt, root@, *p));
    }
}

/// What uninstalling `plugins` from `runtime` under home directory `home`
/// amounts to: WorkBuddy goes through its own engine; any other runtime
/// removes, plugin after plugin, every agent or skill directory that
/// installing the plugin creates (see `uninstall_undoes_install_dirs`).
/// Hermes removes only what exists and stops at the first failure; the claw
/// runtimes ignore failures. Every plugin counts as uninstalled.
pub fn uninstall_plugins(runtime: TargetRuntime, home: &str, plugins: &Vec<PluginSource>) -> (r:
    UninstallPlan)
    ensures
        runtime == TargetRuntime::Workbuddy <==> r is UseEngine,
        runtime != TargetRuntime::Workbuddy ==> (r matches UninstallPlan::Remove {
            dirs,
            strict,
            total,
        } && dirs@.map_values(|d: String| d@) == plan_removal(
            runtime,
            join_path(home@, runtime.root_dir_spec()),
            plugins@,
        ) && strict == (runtime == TargetRuntime::Hermes) && total == plugins@.len()),
{
    match runtime {
        TargetRuntime::Workbuddy => UninstallPlan::UseEngine,
        _ => {
            let root = runtime.root(home);
            let mut dirs: Vec<String> = Vec::new();
            let mut i: usize = 0;
            while i < plugins.len()
                invariant
                    i <= plugins@.len(),
                    runtime != TargetRuntime::Workbuddy,
                    dirs@.map_values(|d: String| d@) == plan_removal(
                        runtime,
                        root@,
                        plugins@.take(i as int),
                    ),
                decreases plugins@.len() - i,
            {
                push_removals(&mut dirs, runtime, root.as_str(), &plugins[i]);
                assert(plugins@.take(i + 1).drop_last() =~= plugins@.take(i as int));
                assert(plugins@.take(i + 1).last() == plugins@[i as int]);
                i = i + 1;
            }
            assert(plugins@.take(plugins@.len() as int) =~= plugins@);
            let strict = match runtime {
                TargetRuntime::Hermes => true,
                _ => false,
            };
            UninstallPlan::Remove { dirs, strict, total: plugins.len() }
        },
    }
}

/// The directories that `ops` create, in order.
pub open spec fn created_dirs(ops: Seq<FsOp>) -> Seq<Seq<char>>
    decreases ops.len(),
{
    if ops.len() == 0 {
        seq![]
    } else {
        let rest = created_dirs(ops.drop_last());
        match ops.last() {
            FsOp::CreateDirAll(d) => rest.push(d),
            _ => rest,
        }
    }
}

/// The directory that an install creates inside a directory that the
/// uninstall removes: the claw agent's `agent` subdirectory, or the Hermes
/// skill directory itself.
pub open spec fn created_within(rt: TargetRuntime, removed: Seq<char>) -> Seq<char> {
    if rt == TargetRuntime::Hermes {
        removed
    } else {
        join_path(removed, "agent"@)
    }
}

proof fn lemma_created_concat(a: Seq<FsOp>, b: Seq<FsOp>)
    ensures
        created_dirs(a + b) == created_dirs(a) + created_dirs(b),
    decreases b.len(),
{
    if b.len() == 0 {
        assert(a + b =~= a);
        assert(created_dirs(a) + created_dirs(b) =~= created_dirs(a));
    } else {
        lemma_created_concat(a, b.drop_last());
        assert((a + b).drop_last() =~= a + b.drop_last());
        assert((a + b).last() == b.last());
        match b.last() {
            FsOp::CreateDirAll(d) => {
                assert(created_dirs(a) + created_dirs(b) =~= (created_dirs(a) + created_dirs(
                    b.drop_last(),
                )).push(d));
            },
            _ => {},
        }
    }
}

proof fn lemma_unit_created(root: Seq<char>, n: Seq<char>, d: Seq<char>, b: Seq<char>)
    ensures
        created_dirs(claw_unit_ops(root, n, d, b)) == seq![claw_agent_dir(root, n)],
        created_dirs(hermes_unit_ops(root, n, d, b)) == seq![hermes_skill_dir(root, n)],
{
    reveal_with_fuel(created_dirs, 5);
    let c = claw_unit_ops(root, n, d, b);
    assert(c.drop_last().drop_last().drop_last().drop_last() =~= seq![]);
    assert(c.drop_last().drop_last().drop_last().last() == c[0]);
    assert(c.drop_last().drop_last().last() == c[1]);
    assert(c.drop_last().last() == c[2]);
    assert(created_dirs(c) =~= seq![claw_agent_dir(root, n)]);
    let h = hermes_unit_ops(root, n, d, b);
    assert(h.drop_last().drop_last() =~= seq![]);
    assert(h.drop_last().last() == h[0]);
    assert(created_dirs(h) =~= seq![hermes_skill_dir(root, n)]);
}

proof fn lemma_agents_created(rt: TargetRuntime, root: Seq<char>, plugin: Seq<char>, agents: Seq<AgentDef>)
    ensures
        created_dirs(agents_ops(rt, root, plugin, agents)) == agents_removal(
            rt,
            root,
            plugin,
            agents,
        ).map_values(|r: Seq<char>| created_within(rt, r)),
    decreases agents.len(),
{
    if agents.len() > 0 {
        let a = agents.last();
        lemma_agents_created(rt, root, plugin, agents.drop_last());
        lemma_created_concat(
            agents_ops(rt, root, plugin, agents.drop_last()),
            agent_unit_ops(rt, root, plugin, a),
        );
        lemma_unit_created(root, a.name@, a.description@, a.body@);
        lemma_unit_created(root, plugin + "-"@ + a.name@, a.description@, a.body@);
        assert(agents_removal(rt, root, plugin, agents).map_values(
            |r: Seq<char>| created_within(rt, r),
        ) =~= agents_removal(rt, root, plugin, agents.drop_last()).map_values(
            |r: Seq<char>| created_within(rt, r),
        ).push(created_within(rt, agent_removal_dir(rt, root, plugin, a))));
    } else {
        assert(agents_removal(rt, root, plugin, agents).map_values(
            |r: Seq<char>| created_within(rt, r),
        ) =~= seq![]);
    }
}

/// Uninstalling undoes installing: every agent or skill directory that
/// installing `ps` creates lies in the directory that uninstalling `ps`
/// removes at the same position, the claw agent's `agent` directory inside
/// the removed agent directory, the Hermes skill directory being removed
/// itself.
pub proof fn uninstall_undoes_install_dirs(rt: TargetRuntime, root: Seq<char>, ps: Seq<PluginSource>)
    requires
        rt != TargetRuntime::Workbuddy,
    ensures
        created_dirs(plan_ops(rt, root, ps)) == plan_removal(rt, root, ps).map_values(
            |r: Seq<char>| created_within(rt, r),
        ),
    decreases ps.len(),
{
    if ps.len() > 0 {
        let p = ps.last();
        uninstall_undoes_install_dirs(rt, root, ps.drop_last());
        lemma_created_concat(plan_ops(rt, root, ps.drop_last()), plugin_ops(rt, root, p));
        if p.agents@.len() > 0 {
            lemma_agents_created(rt, root, p.name@, p.agents@);
        } else {
            let (_, desc, body) = agent_md(p.skill_text@);
            lemma_unit_created(root, p.name@, desc, body);
        }
        assert(plan_removal(rt, root, ps).map_values(|r: Seq<char>| created_within(rt, r))
            =~= plan_removal(rt, root, ps.drop_last()).map_values(
            |r: Seq<char>| created_within(rt, r),
        ) + plugin_removal(rt, root, p).map_values(|r: Seq<char>| created_within(rt, r)));
    } else {
        assert(plan_removal(rt, root, ps).map_values(|r: Seq<char>| created_within(rt, r))
            =~= seq![]);
    }
}


/// Every plugin of `ps`, and every agent of theirs, has a relative name.
pub open spec fn relative_names(ps: Seq<PluginSource>) -> bool {
    &&& forall|i: int| 0 <= i < ps.len() ==> is_relative(#[trigger] ps[i].name@)
    &&& forall|i: int, j: int|
        0 <= i < ps.len() && 0 <= j < ps[i].agents@.len() ==> is_relative(
            #[trigger] ps[i].agents@[j].name@,
        )
}

proof fn lemma_agents_removal_under(rt: TargetRuntime, root: Seq<char>, plugin: Seq<char>, agents: Seq<AgentDef>)
    requires
        is_relative(plugin),
        forall|j: int| 0 <= j < agents.len() ==> is_relative(#[trigger] agents[j].name@),
    ensures
        agents_removal(rt, root, plugin, agents).len() == agents.len(),
        forall|k: int|
            0 <= k < agents.len() ==> lies_under(root, #[trigger] agents_removal(rt, root, plugin, agents)[k]),
    decreases agents.len(),
{
    reveal_strlit("agents");
    reveal_strlit("skills");
    reveal_strlit("agentbuddy");
    reveal_strlit("agent");
    reveal_strlit("-");
    if agents.len() > 0 {
        let rest = agents.drop_last();
        assert forall|j: int| 0 <= j < rest.len() implies is_relative(#[trigger] rest[j].name@) by {
            assert(rest[j] == agents[j]);
        }
        lemma_agents_removal_under(rt, root, plugin, rest);
        let a = agents.last();
        assert(a == agents[agents.len() - 1]);
        lemma_join_under(root, "agents"@);
        lemma_join_under(root, "skills"@);
        lemma_join_stays_under(root, join_path(root, "skills"@), "agentbuddy"@);
        lemma_join_stays_under(root, join_path(root, "agents"@), a.name@);
        let skill = plugin + "-"@ + a.name@;
        assert(is_relative(skill)) by {
            if plugin.len() > 0 {
                assert(skill[0] == plugin[0]);
            } else {
                assert(skill[0] == '-');
            }
        }
        lemma_join_stays_under(root, join_path(join_path(root, "skills"@), "agentbuddy"@), skill);
    }
}

proof fn lemma_plan_removal_under(rt: TargetRuntime, root: Seq<char>, ps: Seq<PluginSource>)
    requires
        relative_names(ps),
    ensures
        plan_removal(rt, root, ps).len() >= ps.len(),
        forall|k: int|
            0 <= k < plan_removal(rt, root, ps).len() ==> lies_under(root, #[trigger] plan_removal(rt, root, ps)[k]),
    decreases ps.len(),
{
    reveal_strlit("agents");
    reveal_strlit("skills");
    reveal_strlit("agentbuddy");
    reveal_strlit("agent");
    reveal_strlit("-");
    if ps.len() > 0 {
        let rest = ps.drop_last();
        assert forall|i: int| 0 <= i < rest.len() implies is_relative(#[trigger] rest[i].name@) by {
            assert(rest[i] == ps[i]);
        }
        assert forall|i: int, j: int|
            0 <= i < rest.len() && 0 <= j < rest[i].agents@.len() implies is_relative(
            #[trigger] rest[i].agents@[j].name@,
        ) by {
            assert(rest[i] == ps[i]);
        }
        lemma_plan_removal_under(rt, root, rest);
        let p = ps.last();
        assert(p == ps[ps.len() - 1]);
        assert forall|j: int| 0 <= j < p.agents@.len() implies is_relative(#[trigger] p.agents@[j].name@) by {
            assert(ps[ps.len() - 1].agents@[j] == p.agents@[j]);
        }
        lemma_agents_removal_under(rt, root, p.name@, p.agents@);
        lemma_join_under(root, "agents"@);
        lemma_join_under(root, "skills"@);
        lemma_join_stays_under(root, join_path(root, "skills"@), "agentbuddy"@);
        lemma_join_stays_under(root, join_path(root, "agents"@), p.name@);
        lemma_join_stays_under(root, join_path(join_path(root, "skills"@), "agentbuddy"@), p.name@);
        let a = plan_removal(rt, root, rest);
        let b = plugin_removal(rt, root, p);
        assert(b.len() >= 1);
        assert forall|k: int| 0 <= k < (a + b).len() implies lies_under(root, #[trigger] (a + b)[k]) by {
            if k >= a.len() {
                assert((a + b)[k] == b[k - a.len()]);
            }
        }
    }
}

/// Installing plugins with relative names into a claw runtime or Hermes
/// creates directories inside the runtime's root only, and at least one
/// where there is a plugin to install, so that the root exists afterwards.
pub proof fn install_creates_within_root(rt: TargetRuntime, root: Seq<char>, ps: Seq<PluginSource>)
    requires
        rt != TargetRuntime::Workbuddy,
        relative_names(ps),
    ensures
        ps.len() > 0 ==> created_dirs(plan_ops(rt, root, ps)).len() > 0,
        forall|k: int|
            0 <= k < created_dirs(plan_ops(rt, root, ps)).len() ==> lies_under(
                root,
                #[trigger] created_dirs(plan_ops(rt, root, ps))[k],
            ),
{
    reveal_strlit("agents");
    reveal_strlit("skills");
    reveal_strlit("agentbuddy");
    reveal_strlit("agent");
    reveal_strlit("-");
    uninstall_undoes_install_dirs(rt, root, ps);
    lemma_plan_removal_under(rt, root, ps);
    let r = plan_removal(rt, root, ps);
    assert forall|k: int| 0 <= k < r.len() implies lies_under(root, #[trigger] created_within(rt, r[k])) by {
        lemma_join_stays_under(root, r[k], "agent"@);
    }
    assert forall|k: int| 0 <= k < created_dirs(plan_ops(rt, root, ps)).len() implies lies_under(
        root,
        #[trigger] created_dirs(plan_ops(rt, root, ps))[k],
    ) by {
        assert(created_dirs(plan_ops(rt, root, ps))[k] == created_within(rt, r[k]));
    }
}


/// What probing the root of runtime `all_runtimes()[j]` under `home` finds
/// after the directories `created` were made with their parents, where it
/// found `before` ahead of them: a directory where there was one, and where
/// one of them lies inside it.
pub open spec fn probed_after(home: Seq<char>, j: int, before: bool, created: Seq<Seq<char>>) -> bool {
    before || exists|k: int|
        0 <= k < created.len() && lies_under(
            join_path(home, all_runtimes()[j].root_dir_spec()),
            #[trigger] created[k],
        )
}

/// Detection after an install: installing plugins with relative names into
/// a claw runtime or Hermes makes detection report that runtime installed,
/// and every runtime that was reported installed before still is.
pub proof fn install_makes_runtime_detected(
    rt: TargetRuntime,
    home: Seq<char>,
    ps: Seq<PluginSource>,
    before: Seq<bool>,
    after: Seq<bool>,
    app_exists: bool,
    status_before: Seq<RuntimeStatus>,
    status_after: Seq<RuntimeStatus>,
)
    requires
        rt != TargetRuntime::Workbuddy,
        ps.len() > 0,
        relative_names(ps),
        before.len() == 4,
        after.len() == 4,
        status_before.len() == 4,
        status_after.len() == 4,
        forall|j: int|
            0 <= j < 4 ==> #[trigger] after[j] == probed_after(
                home,
                j,
                before[j],
                created_dirs(plan_ops(rt, join_path(home, rt.root_dir_spec()), ps)),
            ),
        forall|j: int|
            0 <= j < 4 ==> reports(#[trigger] status_before[j], all_runtimes()[j], home, before[j], app_exists),
        forall|j: int|
            0 <= j < 4 ==> reports(#[trigger] status_after[j], all_runtimes()[j], home, after[j], app_exists),
    ensures
        forall|j: int| 0 <= j < 4 && all_runtimes()[j] == rt ==> #[trigger] status_after[j].installed,
        forall|j: int| 0 <= j < 4 && #[trigger] status_before[j].installed ==> status_after[j].installed,
{
    let root = join_path(home, rt.root_dir_spec());
    let created = created_dirs(plan_ops(rt, root, ps));
    install_creates_within_root(rt, root, ps);
    assert forall|j: int| 0 <= j < 4 && all_runtimes()[j] == rt implies #[trigger] status_after[j].installed by {
        assert(lies_under(root, created[0]));
        assert(after[j]);
        assert(reports(status_after[j], all_runtimes()[j], home, after[j], app_exists));
    }
    assert forall|j: int| 0 <= j < 4 && #[trigger] status_before[j].installed implies status_after[j].installed by {
        assert(reports(status_before[j], all_runtimes()[j], home, before[j], app_exists));
        assert(reports(status_after[j], all_runtimes()[j], home, after[j], app_exists));
        assert(after[j] || !before[j]);
    }
}

} // verus!
