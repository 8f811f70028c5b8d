use agentbuddy::agent_md::{agent_from_file, file_stem, is_agent_file_name, parse_agent_md, AgentDef};
use agentbuddy::catalog::{
    catalog_entry, entries_of, meta_from, list_plugins, manifest_entries, plugin_meta, select_plugins, CatalogEntry, JsonText,
    PluginInfo, PluginMeta,
};
use agentbuddy::cli::{flag_value, installed_report, is_cli, list_line, parse_cli, selection, uninstalled_report};
use agentbuddy::clock::{epoch_to_utc, iso_now, iso_timestamp_of};
use agentbuddy::content::{agents_file, identity_file, skill_file, soul_file};
use agentbuddy::install::{install_plugins, uninstall_plugins, FsStep, InstallPlan, PluginSource, UninstallPlan};
use agentbuddy::json::{read_doc, text_at, Json};
use agentbuddy::paths::{
    config_dir_or_default, expand_home, experts_root_candidates, first_present, pick_experts_root,
    workbuddy_app_candidates,
};
use agentbuddy::registry::{
    backup_path, copy_jobs, installed_after_records, installed_key, installed_without, known_after,
    manifest_after_install, manifest_after_uninstall, installed_on_install, installed_on_uninstall, installed_record,
    installed_records, known_marketplace, known_on_install, manifest_on_install, manifest_on_uninstall,
    registry_paths, removed_count, uninstall_paths, uninstall_updates, KnownMarketplace,
};
use agentbuddy::runtime::{detect_runtimes, TargetRuntime};
use agentbuddy::text::{join, trim_bounds};

fn s(x: &str) -> String {
    x.to_string()
}

fn doc(text: &str) -> serde_json::Value {
    serde_json::from_str(text).unwrap()
}

fn entry_names(d: &serde_json::Value) -> Vec<serde_json::Value> {
    d["plugins"].as_array().unwrap().iter().map(|e| e["name"].clone()).collect()
}

fn strings(v: &[&str]) -> Vec<String> {
    v.iter().map(|x| x.to_string()).collect()
}

fn agent(name: &str, desc: &str, body: &str) -> AgentDef {
    AgentDef { name: s(name), description: s(desc), body: s(body) }
}

fn missing_meta() -> PluginMeta {
    PluginMeta {
        display_zh: JsonText::Missing,
        display_en: JsonText::Missing,
        version: JsonText::Missing,
        description: JsonText::Missing,
        expert_type: JsonText::Missing,
        has_team_icon: false,
        has_expert_icon: false,
    }
}

fn info(name: &str, version: &str) -> PluginInfo {
    PluginInfo {
        name: s(name),
        display_name: s(name),
        version: s(version),
        description: s(""),
        is_team: true,
        has_icon: false,
        plugin_path: format!("/experts/plugins/{}", name),
    }
}

fn step_paths(steps: &[FsStep]) -> Vec<(String, Option<String>)> {
    steps
        .iter()
        .map(|st| match st {
            FsStep::CreateDirAll(p) => (p.clone(), None),
            FsStep::WriteFile(p, c) => (p.clone(), Some(c.clone())),
        })
        .collect()
}

// ---- runtimes

#[test]
fn runtime_identities() {
    let all = TargetRuntime::all();
    let ids: Vec<&str> = all.iter().map(|r| r.id()).collect();
    assert_eq!(ids, vec!["workbuddy", "openclaw", "zqclaw", "hermes"]);
    let names: Vec<&str> = all.iter().map(|r| r.display_name()).collect();
    assert_eq!(names, vec!["WorkBuddy", "OpenClaw", "ZQClaw", "Hermes Agent"]);
    assert_eq!(TargetRuntime::Workbuddy.install_hint(), ("WorkBuddy 官网下载桌面版", "https://workbuddy.ai"));
    assert_eq!(TargetRuntime::Zqclaw.install_hint(), ("ZQClaw 安装引导（内部）", "https://docs.openclaw.ai"));
    assert_eq!(
        TargetRuntime::Hermes.install_hint(),
        ("Hermes Agent 官方文档", "https://hermes-agent.nousresearch.com/docs/")
    );
    assert_eq!(TargetRuntime::Openclaw.root("/home/u"), "/home/u/.openclaw");
    assert_eq!(TargetRuntime::Hermes.root("/home/u/"), "/home/u/.hermes");
}

#[test]
fn detect_reports_every_runtime() {
    let r = detect_runtimes("/home/u", &[false, true, false, false], true);
    assert_eq!(r.len(), 4);
    // WorkBuddy counts as installed through its application bundle alone.
    assert!(r[0].installed);
    assert_eq!(r[0].detail, "/home/u/.workbuddy 根目录已存在");
    assert_eq!(r[1].runtime, "openclaw");
    assert!(r[1].installed);
    assert_eq!(r[1].detail, "/home/u/.openclaw 根目录已存在");
    assert!(!r[2].installed);
    assert_eq!(r[2].detail, "未检测到 ZQClaw（/home/u/.zqclaw）");
    assert_eq!(r[3].display_name, "Hermes Agent");
    assert_eq!(r[3].install_hint_url, "https://hermes-agent.nousresearch.com/docs/");
    let none = detect_runtimes("/h", &[false, false, false, false], false);
    assert!(!none[0].installed);
    assert_eq!(none[0].detail, "未检测到 WorkBuddy（/h/.workbuddy）");
    assert_eq!(none[0].install_hint_title, "WorkBuddy 官网下载桌面版");
}

// ---- text and paths

#[test]
fn path_join_follows_pathbuf() {
    assert_eq!(join("/a", "b"), "/a/b");
    assert_eq!(join("/a/", "b"), "/a/b");
    assert_eq!(join("", "b"), "b");
    assert_eq!(join("/a", "/etc"), "/etc");
    assert_eq!(join("/a", ""), "/a/");
    assert_eq!(join("/a", "b/c.json"), "/a/b/c.json");
}

#[test]
fn trimming_uses_unicode_white_space() {
    let v: Vec<char> = " \t\u{3000}abc \u{a0}\r\n".chars().collect();
    let (a, b) = trim_bounds(&v, 0, v.len());
    assert_eq!(v[a..b].iter().collect::<String>(), "abc");
    let e: Vec<char> = "   ".chars().collect();
    let (a, b) = trim_bounds(&e, 0, e.len());
    assert_eq!(a, b);
}

#[test]
fn home_expansion() {
    assert_eq!(expand_home("~/.workbuddy", Some("/home/u")), "/home/u/.workbuddy");
    assert_eq!(expand_home("~/.workbuddy", None), "~/.workbuddy");
    assert_eq!(expand_home("/etc/x", Some("/home/u")), "/etc/x");
    assert_eq!(expand_home("~x", Some("/home/u")), "~x");
    assert_eq!(expand_home("~//abs", Some("/home/u")), "/abs");
    assert_eq!(config_dir_or_default(None, Some("/home/u")), "/home/u/.workbuddy");
    assert_eq!(config_dir_or_default(Some("~/cfg"), Some("/r")), "/r/cfg");
    assert_eq!(config_dir_or_default(Some("/x"), Some("/r")), "/x");
}

#[test]
fn search_locations() {
    let c = workbuddy_app_candidates("/home/u");
    assert_eq!(c, strings(&["/Applications/WorkBuddy.app", "/home/u/Applications/WorkBuddy.app", "/Applications/Agent Buddy.app"]));
    assert_eq!(workbuddy_app_candidates("")[1], "/Applications/WorkBuddy.app");
    let e = experts_root_candidates(Some("/app/Contents/MacOS"), "/cwd");
    assert_eq!(
        e,
        strings(&[
            "/app/Contents/MacOS/experts",
            "/app/Contents/MacOS/../Resources/experts",
            "/app/Contents/MacOS/../../Resources/experts",
            "/cwd/experts"
        ])
    );
    assert_eq!(experts_root_candidates(None, "/cwd"), strings(&["/cwd/experts"]));
    let probes = vec![(s("/a"), false), (s("/b"), true), (s("/c"), true)];
    assert_eq!(first_present(&probes), Some(s("/b")));
    assert_eq!(first_present(&vec![(s("/a"), false)]), None);
    assert_eq!(pick_experts_root(&probes, "/cwd"), "/b");
    assert_eq!(pick_experts_root(&vec![(s("/a"), false)], "/cwd"), "/cwd/experts");
}

// ---- agent markdown

#[test]
fn parse_front_matter() {
    let text = "---\nname: video-lead\ndescription:  Leads the team \n---\n\nYou are the lead.\n";
    let (name, desc, body) = parse_agent_md(text);
    assert_eq!(name, "video-lead");
    assert_eq!(desc, "Leads the team");
    assert_eq!(body, "\n\nYou are the lead.\n");
}

#[test]
fn parse_without_front_matter_is_all_body() {
    let (name, desc, body) = parse_agent_md("# Title\nbody");
    assert_eq!((name.as_str(), desc.as_str(), body.as_str()), ("", "", "# Title\nbody"));
    // An opening fence without a closing one.
    let (name, desc, body) = parse_agent_md("---\nname: x\n");
    assert_eq!((name.as_str(), desc.as_str(), body.as_str()), ("", "", "---\nname: x\n"));
    let (name, _, body) = parse_agent_md("");
    assert_eq!((name.as_str(), body.as_str()), ("", ""));
}

#[test]
fn parse_front_matter_edge_cases() {
    // The last `name:` line wins; CRLF line endings; keys must open the line.
    let text = "---\r\nname: first\r\n name: indented\r\nname:second\r\ndescription:\r\n---tail";
    let (name, desc, body) = parse_agent_md(text);
    assert_eq!(name, "second");
    assert_eq!(desc, "");
    assert_eq!(body, "tail");
    // The closing fence may directly follow the opening one.
    let (name, desc, body) = parse_agent_md("---\n---rest");
    assert_eq!((name.as_str(), desc.as_str(), body.as_str()), ("", "", "rest"));
    // Non-ASCII text is counted by characters.
    let (name, desc, body) = parse_agent_md("---\nname: 剪辑师\ndescription: 负责剪辑\n---\n正文");
    assert_eq!((name.as_str(), desc.as_str(), body.as_str()), ("剪辑师", "负责剪辑", "\n正文"));
}

#[test]
fn agent_file_names() {
    assert!(is_agent_file_name("lead.md"));
    assert!(is_agent_file_name("a.b.md"));
    assert!(!is_agent_file_name(".md"));
    assert!(!is_agent_file_name("lead.MD"));
    assert!(!is_agent_file_name("lead.txt"));
    assert!(!is_agent_file_name("md"));
    assert_eq!(file_stem("lead.md"), "lead");
    assert_eq!(file_stem("a.b.md"), "a.b");
    assert_eq!(file_stem(".md"), ".md");
    assert_eq!(file_stem("noext"), "noext");
    assert_eq!(file_stem("trail."), "trail");
    assert_eq!(file_stem(".."), "..");
}

#[test]
fn agent_named_after_file_without_name() {
    let a = agent_from_file("editor.md", "---\ndescription: d\n---\nbody");
    assert_eq!((a.name.as_str(), a.description.as_str(), a.body.as_str()), ("editor", "d", "\nbody"));
    let b = agent_from_file("editor.md", "---\nname: Cutter\n---\n");
    assert_eq!(b.name, "Cutter");
}

// ---- generated files

#[test]
fn claw_agent_files() {
    assert_eq!(soul_file("lead", "  be brief \n"), "# lead 灵魂\n\nbe brief\n");
    assert_eq!(
        agents_file("lead"),
        "# lead 行为契约\n\n- 保持角色一致性，按职能路由任务\n- 输出前自检交付质量\n- 无法处理时上报而不是静默失败\n"
    );
    assert_eq!(identity_file("lead", "plans"), "# lead\n\n- **身份**：lead\n- **职责**：plans\n");
}

#[test]
fn hermes_skill_file_replaces_quotes() {
    assert_eq!(
        skill_file("team-lead", "say \"hi\"", "\n body \n"),
        "---\nname: team-lead\ndescription: \"say 'hi'\"\n---\n\nbody"
    );
}

// ---- install plans

#[test]
fn workbuddy_installs_through_its_engine() {
    let plugins = vec![PluginSource { name: s("p"), agents: vec![], skill_text: s("") }];
    assert!(matches!(install_plugins(TargetRuntime::Workbuddy, "/h", &plugins), InstallPlan::UseEngine));
}

#[test]
fn claw_install_plan() {
    let plugins = vec![
        PluginSource { name: s("team"), agents: vec![agent("lead", "leads", " go "), agent("cut", "cuts", "c")], skill_text: s("") },
        PluginSource { name: s("solo"), agents: vec![], skill_text: s("---\ndescription: alone\n---\nwork") },
    ];
    match install_plugins(TargetRuntime::Openclaw, "/h", &plugins) {
        InstallPlan::Steps { steps, total } => {
            assert_eq!(total, 3);
            let st = step_paths(&steps);
            assert_eq!(st.len(), 12);
            assert_eq!(st[0], (s("/h/.openclaw/agents/lead/agent"), None));
            assert_eq!(st[1], (s("/h/.openclaw/agents/lead/agent/SOUL.md"), Some(s("# lead 灵魂\n\ngo\n"))));
            assert_eq!(st[2].0, "/h/.openclaw/agents/lead/agent/AGENTS.md");
            assert_eq!(st[3], (s("/h/.openclaw/agents/lead/agent/IDENTITY.md"), Some(s("# lead\n\n- **身份**：lead\n- **职责**：leads\n"))));
            assert_eq!(st[4], (s("/h/.openclaw/agents/cut/agent"), None));
            assert_eq!(st[8], (s("/h/.openclaw/agents/solo/agent"), None));
            assert_eq!(st[9], (s("/h/.openclaw/agents/solo/agent/SOUL.md"), Some(s("# solo 灵魂\n\nwork\n"))));
            assert_eq!(st[11].1, Some(s("# solo\n\n- **身份**：solo\n- **职责**：alone\n")));
        }
        InstallPlan::UseEngine => panic!("claw runtimes install by steps"),
    }
    match install_plugins(TargetRuntime::Zqclaw, "/h", &plugins) {
        InstallPlan::Steps { steps, .. } => assert_eq!(step_paths(&steps)[0].0, "/h/.zqclaw/agents/lead/agent"),
        InstallPlan::UseEngine => panic!("claw runtimes install by steps"),
    }
}

#[test]
fn hermes_install_plan() {
    let plugins = vec![
        PluginSource { name: s("team"), agents: vec![agent("lead", "say \"x\"", "b")], skill_text: s("") },
        PluginSource { name: s("solo"), agents: vec![], skill_text: s("plain") },
    ];
    match install_plugins(TargetRuntime::Hermes, "/h", &plugins) {
        InstallPlan::Steps { steps, total } => {
            assert_eq!(total, 2);
            let st = step_paths(&steps);
            assert_eq!(st.len(), 4);
            assert_eq!(st[0], (s("/h/.hermes/skills/agentbuddy/team-lead"), None));
            assert_eq!(
                st[1],
                (s("/h/.hermes/skills/agentbuddy/team-lead/SKILL.md"), Some(s("---\nname: team-lead\ndescription: \"say 'x'\"\n---\n\nb")))
            );
            assert_eq!(st[2], (s("/h/.hermes/skills/agentbuddy/solo"), None));
            assert_eq!(st[3].1, Some(s("---\nname: solo\ndescription: \"\"\n---\n\nplain")));
        }
        InstallPlan::UseEngine => panic!("hermes installs by steps"),
    }
    match install_plugins(TargetRuntime::Hermes, "/h", &vec![]) {
        InstallPlan::Steps { steps, total } => assert_eq!((steps.len(), total), (0, 0)),
        InstallPlan::UseEngine => panic!("hermes installs by steps"),
    }
}

#[test]
fn uninstall_targets() {
    let team = PluginSource { name: s("team"), agents: vec![agent("lead", "d", "b"), agent("cut", "d", "b")], skill_text: s("") };
    let solo = PluginSource { name: s("solo"), agents: vec![], skill_text: s("# solo") };
    let plugins = vec![team, solo];
    match uninstall_plugins(TargetRuntime::Openclaw, "/h", &plugins) {
        UninstallPlan::Remove { dirs, strict, total } => {
            assert_eq!(dirs, strings(&["/h/.openclaw/agents/lead", "/h/.openclaw/agents/cut", "/h/.openclaw/agents/solo"]));
            assert!(!strict);
            assert_eq!(total, 2);
        }
        UninstallPlan::UseEngine => panic!("claw runtimes remove directories"),
    }
    match uninstall_plugins(TargetRuntime::Hermes, "/h", &plugins) {
        UninstallPlan::Remove { dirs, strict, total } => {
            assert_eq!(
                dirs,
                strings(&[
                    "/h/.hermes/skills/agentbuddy/team-lead",
                    "/h/.hermes/skills/agentbuddy/team-cut",
                    "/h/.hermes/skills/agentbuddy/solo",
                ])
            );
            assert!(strict);
            assert_eq!(total, 2);
        }
        UninstallPlan::UseEngine => panic!("hermes removes directories"),
    }
    assert!(matches!(uninstall_plugins(TargetRuntime::Workbuddy, "/h", &plugins), UninstallPlan::UseEngine));
}

#[test]
fn uninstall_removes_what_install_created() {
    let team = PluginSource { name: s("team"), agents: vec![agent("lead", "d", "b")], skill_text: s("") };
    let plugins = vec![team];
    let created = match install_plugins(TargetRuntime::Zqclaw, "/h", &plugins) {
        InstallPlan::Steps { steps, .. } => step_paths(&steps)[0].0.clone(),
        InstallPlan::UseEngine => panic!("claw runtimes install by steps"),
    };
    assert_eq!(created, "/h/.zqclaw/agents/lead/agent");
    match uninstall_plugins(TargetRuntime::Zqclaw, "/h", &plugins) {
        UninstallPlan::Remove { dirs, .. } => assert!(created.starts_with(&format!("{}/", dirs[0]))),
        UninstallPlan::UseEngine => panic!("claw runtimes remove directories"),
    }
}

#[test]
fn skill_file_parses_back() {
    let t = skill_file("team-lead", "Says \"hi\" ", "\n  body text \n");
    assert_eq!(parse_agent_md(&t), (s("team-lead"), s("\"Says 'hi' \""), s("\n\nbody text")));
}

#[test]
fn install_stays_inside_the_runtime_root() {
    let team = PluginSource { name: s("team"), agents: vec![agent("lead", "d", "b"), agent("cut", "d", "b")], skill_text: s("") };
    let solo = PluginSource { name: s("solo"), agents: vec![], skill_text: s("# solo") };
    for rt in [TargetRuntime::Openclaw, TargetRuntime::Zqclaw, TargetRuntime::Hermes] {
        let root = rt.root("/h");
        match install_plugins(rt, "/h", &vec![copy_source(&team), copy_source(&solo)]) {
            InstallPlan::Steps { steps, .. } => {
                assert!(!steps.is_empty());
                for (path, _) in step_paths(&steps) {
                    assert!(path.starts_with(&format!("{}/", root)), "{} outside {}", path, root);
                }
            }
            InstallPlan::UseEngine => panic!("only WorkBuddy uses its engine"),
        }
    }
}

#[test]
fn install_then_detection_reports_the_runtime() {
    let solo = PluginSource { name: s("solo"), agents: vec![], skill_text: s("# solo") };
    let before = detect_runtimes("/h", &[false, false, true, false], false);
    assert!(!before[1].installed);
    let created = match install_plugins(TargetRuntime::Openclaw, "/h", &vec![solo]) {
        InstallPlan::Steps { steps, .. } => step_paths(&steps)[0].0.clone(),
        InstallPlan::UseEngine => panic!("claw runtimes install by steps"),
    };
    let root = TargetRuntime::Openclaw.root("/h");
    let probes = [false, created.starts_with(&format!("{}/", root)), true, false];
    let after = detect_runtimes("/h", &probes, false);
    assert!(after[1].installed);
    assert!(after[2].installed);
    assert_eq!(after[1].detail, "/h/.openclaw 根目录已存在");
}

fn copy_source(p: &PluginSource) -> PluginSource {
    PluginSource {
        name: p.name.clone(),
        agents: p.agents.iter().map(|a| agent(&a.name, &a.description, &a.body)).collect(),
        skill_text: p.skill_text.clone(),
    }
}

// ---- catalog

#[test]
fn catalog_from_manifest_entries() {
    let mut m1 = missing_meta();
    m1.display_zh = JsonText::Text(s("视频工厂"));
    m1.display_en = JsonText::Text(s("Video Factory"));
    m1.version = JsonText::Text(s("2.1.0"));
    m1.expert_type = JsonText::Text(s("expert"));
    m1.has_expert_icon = true;
    let mut m2 = missing_meta();
    m2.display_en = JsonText::Text(s("Studio"));
    m2.description = JsonText::Other;
    let mut m3 = missing_meta();
    m3.display_zh = JsonText::Other;
    m3.display_en = JsonText::Text(s("ignored"));
    let entries = vec![
        CatalogEntry { name: JsonText::Text(s("video-factory")), description: JsonText::Text(s("entry desc")), meta: m1 },
        CatalogEntry { name: JsonText::Other, description: JsonText::Missing, meta: missing_meta() },
        CatalogEntry { name: JsonText::Text(s("studio")), description: JsonText::Text(s("from entry")), meta: m2 },
        CatalogEntry { name: JsonText::Missing, description: JsonText::Missing, meta: missing_meta() },
        CatalogEntry { name: JsonText::Text(s("plain")), description: JsonText::Other, meta: m3 },
    ];
    let c = list_plugins("/x", &entries);
    assert_eq!(c.len(), 3);
    assert_eq!(c[0].name, "video-factory");
    assert_eq!(c[0].display_name, "视频工厂");
    assert_eq!(c[0].version, "2.1.0");
    assert_eq!(c[0].description, "entry desc");
    assert!(!c[0].is_team);
    assert!(c[0].has_icon);
    assert_eq!(c[0].plugin_path, "/x/plugins/video-factory");
    assert_eq!(c[1].display_name, "Studio");
    assert_eq!(c[1].version, "1.0.0");
    assert_eq!(c[1].description, "from entry");
    assert!(c[1].is_team);
    assert!(!c[1].has_icon);
    assert_eq!(c[2].display_name, "plain");
    assert_eq!(c[2].description, "");
}

#[test]
fn selection_keeps_catalog_order() {
    let catalog = vec![info("a", "1"), info("b", "1"), info("c", "1")];
    let sel = select_plugins(&catalog, &strings(&["c", "zz", "a"]));
    let names: Vec<&str> = sel.iter().map(|p| p.name.as_str()).collect();
    assert_eq!(names, vec!["a", "c"]);
    assert!(select_plugins(&catalog, &vec![]).is_empty());
}

// ---- registry

#[test]
fn registry_layout() {
    let p = registry_paths("/cfg");
    assert_eq!(p.marketplace_dir, "/cfg/plugins/marketplaces/my-experts");
    assert_eq!(p.plugins_dir, "/cfg/plugins/marketplaces/my-experts/plugins");
    assert_eq!(p.cache_root, "/cfg/plugins/cache/my-experts");
    assert_eq!(p.manifest, "/cfg/plugins/marketplaces/my-experts/.codebuddy-plugin/marketplace.json");
    assert_eq!(p.known_marketplaces, "/cfg/plugins/known_marketplaces.json");
    assert_eq!(p.installed_plugins, "/cfg/plugins/installed_plugins.json");
    let jobs = copy_jobs(&vec![info("v", "1.2.0")], "/cfg");
    assert_eq!(jobs.len(), 1);
    assert_eq!(jobs[0].from, "/experts/plugins/v");
    assert_eq!(jobs[0].to_marketplace, "/cfg/plugins/marketplaces/my-experts/plugins/v");
    assert_eq!(jobs[0].to_cache, "/cfg/plugins/cache/my-experts/v/1.2.0");
    assert_eq!(uninstall_paths("/cfg", "v"), (s("/cfg/plugins/marketplaces/my-experts/plugins/v"), s("/cfg/plugins/cache/my-experts/v")));
}

const EXISTING: &str = r#"{"name":"my-experts","plugins":[{"name":"foreign"},{"name":"v","old":true},{"name":3},{"name":"w"}]}"#;
const SOURCE: &str = r#"{"plugins":[{"name":"v","new":1},{"name":"x"},{"description":"no name"},{"name":"w"}]}"#;

#[test]
fn install_keeps_foreign_plugins() {
    let u = manifest_on_install("/cfg", Some(EXISTING), Some(SOURCE), &strings(&["v", "w"]));
    assert_eq!(u.path, "/cfg/plugins/marketplaces/my-experts/.codebuddy-plugin/marketplace.json");
    assert_eq!(u.backup, "/cfg/plugins/marketplaces/my-experts/.codebuddy-plugin/marketplace.json.bak-agentbuddy");
    let d = doc(&u.contents);
    assert_eq!(d["name"], "my-experts");
    assert_eq!(entry_names(&d), vec![serde_json::Value::from("foreign"), serde_json::Value::from(3), "v".into(), "w".into()]);
    assert_eq!(d["plugins"][2]["new"], 1);
    assert!(d["plugins"][2].get("old").is_none());
    assert!(u.contents.starts_with("{\n  \""));
}

#[test]
fn install_without_manifests() {
    let u = manifest_on_install("/cfg", None, None, &strings(&["v"]));
    let d = doc(&u.contents);
    assert_eq!(d["name"], "my-experts");
    assert_eq!(d["plugins"].as_array().unwrap().len(), 0);
    let broken = manifest_on_install("/cfg", Some("{not json"), Some("[1, 2]"), &strings(&["v"]));
    assert_eq!(broken.contents, u.contents);
}

#[test]
fn uninstall_after_install_leaves_foreign_plugins() {
    let names = strings(&["v", "w"]);
    let u = manifest_on_install("/cfg", Some(EXISTING), Some(SOURCE), &names);
    let back = manifest_on_uninstall("/cfg", Some(&u.contents), &names).unwrap();
    assert_eq!(back.path, u.path);
    let d = doc(&back.contents);
    assert_eq!(entry_names(&d), vec![serde_json::Value::from("foreign"), serde_json::Value::from(3)]);
}

#[test]
fn second_install_changes_nothing() {
    let names = strings(&["v", "w"]);
    let first = manifest_on_install("/cfg", Some(EXISTING), Some(SOURCE), &names);
    let second = manifest_on_install("/cfg", Some(&first.contents), Some(SOURCE), &names);
    assert_eq!(first.contents, second.contents);
}

#[test]
fn uninstall_manifest_without_plugins_array() {
    assert!(manifest_on_uninstall("/cfg", Some(r#"{"name":"my-experts"}"#), &strings(&["v"])).is_none());
    assert!(manifest_on_uninstall("/cfg", Some("[1]"), &strings(&["v"])).is_none());
    let u = manifest_on_uninstall("/cfg", None, &strings(&["v"])).unwrap();
    let d = doc(&u.contents);
    assert_eq!(d["plugins"].as_array().unwrap().len(), 0);
    let kept = manifest_on_uninstall("/cfg", Some(r#"{"plugins":[{"name":"v"},{"name":"a"}],"extra":7}"#), &strings(&["v"])).unwrap();
    let d = doc(&kept.contents);
    assert_eq!(entry_names(&d), vec![serde_json::Value::from("a")]);
    assert_eq!(d["extra"], 7);
}

fn record_for_test() -> KnownMarketplace {
    KnownMarketplace {
        manifest_name: s("my-experts"),
        kind: s("directory"),
        path: s("/cfg/plugins/marketplaces/my-experts"),
        description: s("Marketplace from /cfg/plugins/marketplaces/my-experts"),
        last_updated: s("2024-01-02T03:04:05.000Z"),
        auto_update: false,
    }
}

#[test]
fn known_marketplaces_document() {
    let rec = record_for_test();
    let u = known_on_install("/cfg", Some(r#"{"other":{"a":1},"my-experts":{"stale":true}}"#), &rec).unwrap();
    assert_eq!(u.path, "/cfg/plugins/known_marketplaces.json");
    assert_eq!(u.backup, "/cfg/plugins/known_marketplaces.json.bak-agentbuddy");
    let d = doc(&u.contents);
    assert_eq!(d["other"]["a"], 1);
    let m = &d["my-experts"];
    assert_eq!(m["manifestName"], "my-experts");
    assert_eq!(m["type"], "directory");
    assert_eq!(m["source"]["source"], "directory");
    assert_eq!(m["source"]["path"], "/cfg/plugins/marketplaces/my-experts");
    assert_eq!(m["installLocation"], "/cfg/plugins/marketplaces/my-experts");
    assert_eq!(m["description"], "Marketplace from /cfg/plugins/marketplaces/my-experts");
    assert_eq!(m["lastUpdated"], "2024-01-02T03:04:05.000Z");
    assert_eq!(m["autoUpdate"], false);
    assert!(m.get("stale").is_none());
    let fresh = doc(&known_on_install("/cfg", None, &rec).unwrap().contents);
    assert_eq!(fresh.as_object().unwrap().len(), 1);
    assert_eq!(doc(&known_on_install("/cfg", Some("oops"), &rec).unwrap().contents), fresh);
    assert!(known_on_install("/cfg", Some("[1]"), &rec).is_none());
}

#[test]
fn installed_plugins_document() {
    let existing = r#"{"version":1,"plugins":{"a@other":[1],"v@my-experts":[{"old":true}]}}"#;
    let records = installed_records(&vec![info("v", "1.2.0"), info("w", "2.0.0")], "/cfg");
    let u = installed_on_install("/cfg", Some(existing), &records);
    assert_eq!(u.path, "/cfg/plugins/installed_plugins.json");
    assert_eq!(u.backup, "/cfg/plugins/installed_plugins.json.bak-agentbuddy");
    let d = doc(&u.contents);
    assert_eq!(d["version"], 2);
    assert_eq!(d["plugins"]["a@other"][0], 1);
    let v = &d["plugins"]["v@my-experts"][0];
    assert_eq!(v["scope"], "user");
    assert_eq!(v["installPath"], "/cfg/plugins/cache/my-experts/v/1.2.0");
    assert_eq!(v["version"], "1.2.0");
    assert!(v.get("old").is_none());
    assert_eq!(d["plugins"]["w@my-experts"][0]["version"], "2.0.0");
    let fresh = doc(&installed_on_install("/cfg", Some("[]"), &records).contents);
    assert_eq!(fresh["version"], 2);
    assert_eq!(fresh["plugins"].as_object().unwrap().len(), 2);
}

#[test]
fn uninstall_drops_only_named_records() {
    let names = strings(&["v", "w"]);
    let records = installed_records(&vec![info("v", "1.2.0"), info("w", "2.0.0")], "/cfg");
    let before = r#"{"version":2,"plugins":{"a@other":[1]}}"#;
    let installed = installed_on_install("/cfg", Some(before), &records);
    let back = installed_on_uninstall("/cfg", Some(&installed.contents), &names);
    assert_eq!(doc(&back.contents), doc(before));
    let odd = installed_on_uninstall("/cfg", Some(r#"{"version":1,"plugins":[1],"x":true}"#), &names);
    assert_eq!(doc(&odd.contents), doc(r#"{"version":1,"plugins":[1],"x":true}"#));
    let empty = installed_on_uninstall("/cfg", None, &names);
    assert_eq!(doc(&empty.contents), doc(r#"{"version":2,"plugins":{}}"#));
}

#[test]
fn second_install_keeps_record_keys() {
    let existing = r#"{"version":2,"plugins":{"z@other":[0]}}"#;
    let records = installed_records(&vec![info("v", "1.0.0"), info("w", "1.0.0")], "/cfg");
    let first = installed_on_install("/cfg", Some(existing), &records);
    let again = installed_records(&vec![info("v", "1.0.0"), info("w", "1.0.0")], "/cfg");
    let second = installed_on_install("/cfg", Some(&first.contents), &again);
    let keys = |t: &str| doc(t)["plugins"].as_object().unwrap().keys().cloned().collect::<Vec<_>>();
    assert_eq!(keys(&first.contents), keys(&second.contents));
    assert_eq!(keys(&first.contents).len(), 3);
}

#[test]
fn uninstall_bookkeeping() {
    assert_eq!(removed_count(&vec![true, false, true]), 2);
    assert_eq!(removed_count(&vec![]), 0);
    assert_eq!(removed_count(&vec![true, true, true]), 3);
    let names = strings(&["v"]);
    assert!(uninstall_updates("/cfg", &names, 0, Some(Some("{}")), Some(Some("{}"))).is_empty());
    let u = uninstall_updates("/cfg", &names, 1, Some(None), Some(Some(r#"{"plugins":[{"name":"v"}]}"#)));
    assert_eq!(u.len(), 2);
    assert_eq!(u[0].path, "/cfg/plugins/installed_plugins.json");
    assert_eq!(u[1].path, "/cfg/plugins/marketplaces/my-experts/.codebuddy-plugin/marketplace.json");
    let u = uninstall_updates("/cfg", &names, 1, None, Some(Some(r#"{"name":"x"}"#)));
    assert!(u.is_empty());
}

fn obj(members: Vec<(&str, Json)>) -> Json {
    Json::Object(members.into_iter().map(|(k, v)| (s(k), v)).collect())
}

fn named(n: &str) -> Json {
    obj(vec![("name", Json::Str(s(n)))])
}

fn names_in(doc: &Json) -> Vec<String> {
    let entries = match doc {
        Json::Object(m) => match &m.iter().find(|(k, _)| k == "plugins").unwrap().1 {
            Json::Array(items) => items,
            _ => panic!("plugins is no array"),
        },
        _ => panic!("no object"),
    };
    entries
        .iter()
        .map(|e| match text_at(e, "name") {
            JsonText::Text(t) => t,
            _ => s("?"),
        })
        .collect()
}

#[test]
fn documents_from_parsed_values() {
    let existing = obj(vec![("plugins", Json::Array(vec![named("foreign"), named("v"), Json::Null]))]);
    let source = obj(vec![("plugins", Json::Array(vec![named("x"), named("v")]))]);
    let names = strings(&["v"]);
    let installed = manifest_after_install(Some(existing), Some(source), &names);
    assert_eq!(names_in(&installed), strings(&["foreign", "?", "v"]));
    let back = manifest_after_uninstall(Some(installed), &names).unwrap();
    assert_eq!(names_in(&back), strings(&["foreign", "?"]));
    assert!(manifest_after_uninstall(Some(Json::Array(vec![])), &names).is_none());
    assert_eq!(entries_of(Some(back)).len(), 2);
    assert!(entries_of(Some(Json::Null)).is_empty());

    let rec = record_for_test();
    assert!(known_after(Some(Json::Bool(true)), &rec).is_none());
    match known_after(Some(obj(vec![("a", Json::Null)])), &rec) {
        Some(Json::Object(m)) => assert_eq!(m.iter().map(|(k, _)| k.as_str()).collect::<Vec<_>>(), vec!["a", "my-experts"]),
        _ => panic!("an object"),
    }

    let records = installed_records(&vec![info("v", "1.0.0")], "/cfg");
    let doc = installed_after_records(Some(obj(vec![("plugins", obj(vec![("a@b", Json::Null)]))])), &records);
    let plugins = match &doc {
        Json::Object(m) => {
            assert!(matches!(&m[0], (k, Json::Number(n)) if k == "version" && n == "2"));
            match &m[1].1 {
                Json::Object(p) => p.iter().map(|(k, _)| k.clone()).collect::<Vec<_>>(),
                _ => panic!("plugins is an object"),
            }
        }
        _ => panic!("an object"),
    };
    assert_eq!(plugins, strings(&["a@b", "v@my-experts"]));
    let without = installed_without(Some(doc), &names);
    match &without {
        Json::Object(m) => match &m[1].1 {
            Json::Object(p) => assert_eq!(p.len(), 1),
            _ => panic!("plugins is an object"),
        },
        _ => panic!("an object"),
    }

    let meta = meta_from(Some(obj(vec![("displayName", obj(vec![("en", Json::Str(s("E")))]))])), false, true);
    assert!(matches!(meta.display_zh, JsonText::Missing));
    assert!(matches!(meta.display_en, JsonText::Text(ref t) if t == "E"));
    assert!(meta.has_expert_icon);
}

#[test]
fn backup_paths_follow_with_extension() {
    for p in [
        "/cfg/plugins/installed_plugins.json",
        "/a/.hidden",
        "/a/b.tar.gz",
        "/a/b/",
        "/a/b/.",
        "a.",
        "..a",
        "/",
        "",
        ".",
        "/a/..",
        "plain",
        "/x/.y.z//",
        "/a/..b/",
        "/a/b.cd/",
        "/a/b.c/.",
        "c.d/..",
    ] {
        let expected = std::path::Path::new(p).with_extension("json.bak-agentbuddy");
        assert_eq!(backup_path(p), expected.to_string_lossy(), "path {:?}", p);
    }
    assert_eq!(backup_path("/a/b.json"), "/a/b.json.bak-agentbuddy");
}

#[test]
fn catalog_reads_documents() {
    let entries = manifest_entries(Some(r#"{"plugins":[{"name":"video","description":"d"},{"name":1}]}"#));
    assert_eq!(entries.len(), 2);
    assert!(matches!(text_at(&entries[0], "name"), JsonText::Text(ref n) if n == "video"));
    assert!(matches!(text_at(&entries[1], "name"), JsonText::Other));
    assert!(manifest_entries(None).is_empty());
    assert!(manifest_entries(Some("{}")).is_empty());
    assert!(manifest_entries(Some("garbage")).is_empty());
    let meta = plugin_meta(
        Some(r#"{"displayName":{"zh":"视频","en":"Video"},"version":"2.0.0","description":7,"expertType":"team"}"#),
        true,
        false,
    );
    assert!(matches!(meta.display_zh, JsonText::Text(ref t) if t == "视频"));
    assert!(matches!(meta.display_en, JsonText::Text(ref t) if t == "Video"));
    assert!(matches!(meta.version, JsonText::Text(ref t) if t == "2.0.0"));
    assert!(matches!(meta.description, JsonText::Other));
    assert!(meta.has_team_icon && !meta.has_expert_icon);
    let e = catalog_entry(&entries[0], meta);
    assert!(matches!(e.description, JsonText::Text(ref t) if t == "d"));
    let p = list_plugins("/ex", &vec![e]);
    assert_eq!(p[0].display_name, "视频");
    assert_eq!(p[0].description, "d");
    assert!(p[0].is_team);
    let none = plugin_meta(Some("not json"), false, false);
    assert!(matches!(none.version, JsonText::Missing));
    assert!(matches!(read_doc(Some("[true, null, 1.5]")), Some(Json::Array(ref a)) if a.len() == 3));
}

#[test]
fn registry_records() {
    assert_eq!(installed_key("video"), "video@my-experts");
    let r = installed_record(&info("video", "3.0.0"), "/cfg");
    assert_eq!(r.key, "video@my-experts");
    assert_eq!(r.install_path, "/cfg/plugins/cache/my-experts/video/3.0.0");
    assert_eq!(r.version, "3.0.0");
    assert_eq!(r.installed_at.len(), 24);
    assert!(r.last_updated.ends_with(".000Z"));
    let k = known_marketplace("/cfg");
    assert_eq!(k.manifest_name, "my-experts");
    assert_eq!(k.kind, "directory");
    assert_eq!(k.path, "/cfg/plugins/marketplaces/my-experts");
    assert_eq!(k.description, "Marketplace from /cfg/plugins/marketplaces/my-experts");
    assert!(!k.auto_update);
}

// ---- clock

#[test]
fn epoch_to_utc_known_instants() {
    assert_eq!(epoch_to_utc(0), (0, 0, 0, 1, 1, 1970));
    assert_eq!(epoch_to_utc(951_782_400), (0, 0, 0, 29, 2, 2000));
    assert_eq!(epoch_to_utc(1_700_000_000), (20, 13, 22, 14, 11, 2023));
    assert_eq!(epoch_to_utc(4_102_444_799), (59, 59, 23, 31, 12, 2099));
    assert_eq!(epoch_to_utc(4_102_444_800), (0, 0, 0, 1, 1, 2100));
    assert_eq!(epoch_to_utc(1_078_012_800), (0, 0, 0, 29, 2, 2004));
}

#[test]
fn epoch_to_utc_before_epoch() {
    // Days before the epoch are not carried into earlier years.
    assert_eq!(epoch_to_utc(-1), (59, 59, 23, 0, 1, 1970));
    assert_eq!(epoch_to_utc(-86_400), (0, 0, 0, 0, 1, 1970));
    assert_eq!(epoch_to_utc(-86_401), (59, 59, 23, -1, 1, 1970));
}

#[test]
fn epoch_round_trip_on_values() {
    for secs in [0i64, 59, 3_600, 86_399, 31_535_999, 31_536_000, 68_256_000, 951_868_799, 1_234_567_890] {
        let (s, m, h, d, mo, y) = epoch_to_utc(secs);
        assert!((0..60).contains(&s) && (0..60).contains(&m) && (0..24).contains(&h));
        assert!((1..=12).contains(&mo) && d >= 1 && d <= 31 && y >= 1970);
        let leap = |y: i64| (y % 4 == 0 && y % 100 != 0) || y % 400 == 0;
        let mut days = 0i64;
        for yy in 1970..y {
            days += if leap(yy) { 366 } else { 365 };
        }
        let md = [31, if leap(y) { 29 } else { 28 }, 31, 30, 31, 30, 31, 31, 30, 31, 30, 31];
        for k in 0..(mo - 1) as usize {
            days += md[k];
        }
        days += d - 1;
        assert_eq!(days * 86_400 + h * 3_600 + m * 60 + s, secs);
    }
}

#[test]
fn iso_timestamps() {
    assert_eq!(iso_timestamp_of(0), "1970-01-01T00:00:00.000Z");
    assert_eq!(iso_timestamp_of(1_700_000_000), "2023-11-14T22:13:20.000Z");
    assert_eq!(iso_timestamp_of(253_402_300_800), "10000-01-01T00:00:00.000Z");
    assert_eq!(iso_timestamp_of(-1), "1970-01-00T23:59:59.000Z");
    assert_eq!(iso_timestamp_of(-86_401), "1970-01--1T23:59:59.000Z");
    assert_eq!(iso_timestamp_of(-864_000), "1970-01--9T00:00:00.000Z");
    assert_eq!(iso_timestamp_of(-950_400), "1970-01--10T00:00:00.000Z");
    let now = iso_now();
    assert_eq!(now.len(), 24);
    assert!(now.as_str() > "2020");
}

// ---- command line

#[test]
fn command_line_options() {
    let args = strings(&["agentbuddy", "--cli", "--experts", "/e", "--config-dir", "~/c", "--select", "a, b", "--uninstall"]);
    assert!(is_cli(&args));
    let o = parse_cli(&args);
    assert_eq!(o.experts, Some(s("/e")));
    assert!(!o.list);
    assert_eq!(o.config_dir, Some(s("~/c")));
    assert_eq!(o.select, Some(s("a, b")));
    assert!(o.uninstall);
    let l = strings(&["agentbuddy", "--list"]);
    assert!(is_cli(&l));
    let o = parse_cli(&l);
    assert!(o.list);
    assert_eq!(o.experts, None);
    assert!(!is_cli(&strings(&["agentbuddy"])));
    // A flag without a value gives none; the first occurrence with one wins.
    assert_eq!(flag_value(&strings(&["x", "--select"]), "--select"), None);
    assert_eq!(flag_value(&strings(&["--select", "a", "--select", "b"]), "--select"), Some(s("a")));
}

#[test]
fn selection_of_names() {
    let catalog = vec![info("a", "1"), info("b", "1")];
    assert_eq!(selection(None, &catalog), strings(&["a", "b"]));
    assert_eq!(selection(Some("all"), &catalog), strings(&["a", "b"]));
    assert_eq!(selection(Some(" x , y,,z "), &catalog), strings(&["x", "y", "", "z"]));
    assert_eq!(selection(Some(""), &catalog), strings(&[""]));
    assert_eq!(selection(Some("a,"), &catalog), strings(&["a", ""]));
}

#[test]
fn printed_lines() {
    let mut p = info("video", "1");
    p.display_name = s("视频");
    assert_eq!(list_line(&p), "video\tteam\t视频");
    p.is_team = false;
    assert_eq!(list_line(&p), "video\tagent\t视频");
    assert_eq!(installed_report(3, "/c/plugins/marketplaces/my-experts"), "installed 3 plugins into /c/plugins/marketplaces/my-experts");
    assert_eq!(uninstalled_report(0, "/d"), "uninstalled 0 plugins from /d");
    assert_eq!(installed_report(1234567, "/d"), "installed 1234567 plugins into /d");
}

#[test]
fn install_count_matches_directories_created() {
    let plugins = vec![
        PluginSource { name: s("t"), agents: vec![agent("a", "", ""), agent("b", "", ""), agent("c", "", "")], skill_text: s("") },
        PluginSource { name: s("u"), agents: vec![], skill_text: s("") },
    ];
    for rt in [TargetRuntime::Openclaw, TargetRuntime::Zqclaw, TargetRuntime::Hermes] {
        match install_plugins(rt, "/h", &plugins) {
            InstallPlan::Steps { steps, total } => {
                let dirs = steps.iter().filter(|st| matches!(st, FsStep::CreateDirAll(_))).count();
                assert_eq!(total, 4);
                assert_eq!(dirs, total);
            }
            InstallPlan::UseEngine => panic!("only WorkBuddy uses its engine"),
        }
    }
}

#[test]
fn civil_dates_map_back_to_their_instant() {
    // 2024-02-29T12:34:56Z and 2038-01-19T03:14:08Z.
    assert_eq!(epoch_to_utc(1_709_210_096), (56, 34, 12, 29, 2, 2024));
    assert_eq!(iso_timestamp_of(1_709_210_096), "2024-02-29T12:34:56.000Z");
    assert_eq!(epoch_to_utc(2_147_483_648), (8, 14, 3, 19, 1, 2038));
}


#[test]
fn installed_records_of_other_plugins_stay() {
    let existing = r#"{"version":2,"plugins":{"a@my-experts":[1],"x@other":[2],"b@my-experts":[3]}}"#;
    let records = installed_records(&vec![info("b", "1.0.0"), info("c", "1.0.0"), info("b", "2.0.0")], "/cfg");
    let d = doc(&installed_on_install("/cfg", Some(existing), &records).contents);
    let plugins = d["plugins"].as_object().unwrap();
    assert_eq!(plugins.len(), 4);
    assert_eq!(d["plugins"]["a@my-experts"][0], 1);
    assert_eq!(d["plugins"]["x@other"][0], 2);
    assert_eq!(d["plugins"]["b@my-experts"][0]["version"], "2.0.0");
    let d = doc(&installed_on_uninstall("/cfg", Some(existing), &strings(&["b", "x"])).contents);
    assert_eq!(d["plugins"].as_object().unwrap().len(), 2);
    assert!(d["plugins"].get("b@my-experts").is_none());
    assert_eq!(d["plugins"]["x@other"][0], 2);
    let d = doc(&installed_on_uninstall("/cfg", Some(existing), &strings(&["a", "b"])).contents);
    assert_eq!(d["plugins"].as_object().unwrap().len(), 1);
    assert_eq!(d["plugins"]["x@other"][0], 2);
}
