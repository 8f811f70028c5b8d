//! The agent runtimes that plugins can be installed into, and how their
//! presence on a machine is reported.
use vstd::prelude::*;
use crate::text::{join, join_path, owned, push_str};

verus! {

broadcast use vstd::string::group_string_axioms;

/// An agent runtime that plugins can be installed into.
#[derive(Debug, Clone, Copy, PartialEq, Eq, Structural)]
pub enum TargetRuntime {
    Workbuddy,
    Openclaw,
    Zqclaw,
    Hermes,
}

/// Every runtime, in the order in which they are listed to the user.
pub open spec fn all_runtimes() -> Seq<TargetRuntime> {
    seq![
        TargetRuntime::Workbuddy,
        TargetRuntime::Openclaw,
        TargetRuntime::Zqclaw,
        TargetRuntime::Hermes,
    ]
}

impl TargetRuntime {
    /// The stable lower-case identifier of the runtime.
    pub open spec fn id_spec(self) -> Seq<char> {
        match self {
            TargetRuntime::Workbuddy => "workbuddy"@,
            TargetRuntime::Openclaw => "openclaw"@,
            TargetRuntime::Zqclaw => "zqclaw"@,
            TargetRuntime::Hermes => "hermes"@,
        }
    }

    /// The name shown to the user.
    pub open spec fn display_name_spec(self) -> Seq<char> {
        match self {
            TargetRuntime::Workbuddy => "WorkBuddy"@,
            TargetRuntime::Openclaw => "OpenClaw"@,
            TargetRuntime::Zqclaw => "ZQClaw"@,
            TargetRuntime::Hermes => "Hermes Agent"@,
        }
    }

    /// Title and URL of the official page that guides the user to install
    /// the runtime.
    pub open spec fn install_hint_spec(self) -> (Seq<char>, Seq<char>) {
        match self {
            TargetRuntime::Workbuddy => ("WorkBuddy 官网下载桌面版"@, "https://workbuddy.ai"@),
            TargetRuntime::Openclaw => ("OpenClaw 文档（安装引导）"@, "https://docs.openclaw.ai"@),
            TargetRuntime::Zqclaw => ("ZQClaw 安装引导（内部）"@, "https://docs.openclaw.ai"@),
            TargetRuntime::Hermes => (
                "Hermes Agent 官方文档"@,
                "https://hermes-agent.nousresearch.com/docs/"@,
            ),
        }
    }

    /// The name of the runtime's root directory under the home directory.
    pub open spec fn root_dir_spec(self) -> Seq<char> {
        match self {
            TargetRuntime::Workbuddy => ".workbuddy"@,
            TargetRuntime::Openclaw => ".openclaw"@,
            TargetRuntime::Zqclaw => ".zqclaw"@,
            TargetRuntime::Hermes => ".hermes"@,
        }
    }

    /// Every runtime.
    pub fn all() -> (r: [TargetRuntime; 4])
        ensures
            r@ == all_runtimes(),
    {
        let r = [
            TargetRuntime::Workbuddy,
            TargetRuntime::Openclaw,
            TargetRuntime::Zqclaw,
            TargetRuntime::Hermes,
        ];
        assert(r@ =~= all_runtimes());
        r
    }

    pub fn id(&self) -> (r: &'static str)
        ensures
            r@ == self.id_spec(),
    {
        match self {
            TargetRuntime::Workbuddy => "workbuddy",
            TargetRuntime::Openclaw => "openclaw",
            TargetRuntime::Zqclaw => "zqclaw",
            TargetRuntime::Hermes => "hermes",
        }
    }

    pub fn display_name(&self) -> (r: &'static str)
        ensures
            r@ == self.display_name_spec(),
    {
        match self {
            TargetRuntime::Workbuddy => "WorkBuddy",
            TargetRuntime::Openclaw => "OpenClaw",
            TargetRuntime::Zqclaw => "ZQClaw",
            TargetRuntime::Hermes => "Hermes Agent",
        }
    }

    /// Where to point the user to install the runtime: (title, URL).
    pub fn install_hint(&self) -> (r: (&'static str, &'static str))
        ensures
            (r.0@, r.1@) == self.install_hint_spec(),
    {
        match self {
            TargetRuntime::Workbuddy => ("WorkBuddy 官网下载桌面版", "https://workbuddy.ai"),
            TargetRuntime::Openclaw => ("OpenClaw 文档（安装引导）", "https://docs.openclaw.ai"),
            TargetRuntime::Zqclaw => ("ZQClaw 安装引导（内部）", "https://docs.openclaw.ai"),
            TargetRuntime::Hermes => (
                "Hermes Agent 官方文档",
                "https://hermes-agent.nousresearch.com/docs/",
            ),
        }
    }

    fn root_dir(&self) -> (r: &'static str)
        ensures
            r@ == self.root_dir_spec(),
    {
        match self {
            TargetRuntime::Workbuddy => ".workbuddy",
            TargetRuntime::Openclaw => ".openclaw",
            TargetRuntime::Zqclaw => ".zqclaw",
            TargetRuntime::Hermes => ".hermes",
        }
    }

    /// The runtime's root directory under the home directory `home`.
    pub fn root(&self, home: &str) -> (r: String)
        ensures
            r@ == join_path(home@, self.root_dir_spec()),
    {
        join(home, self.root_dir())
    }
}

/// Whether a runtime is on this machine, and how to get it if not.
pub struct RuntimeStatus {
    pub runtime: &'static str,
    pub display_name: &'static str,
    pub installed: bool,
    pub detail: String,
    pub install_hint_title: String,
    pub install_hint_url: String,
}

/// Whether `rt` counts as installed: its root directory is there, or, for
/// WorkBuddy, also its application bundle.
pub open spec fn runtime_installed(rt: TargetRuntime, root_is_dir: bool, app_exists: bool) -> bool {
    match rt {
        TargetRuntime::Workbuddy => root_is_dir || app_exists,
        _ => root_is_dir,
    }
}

/// A runtime whose root directory is there is reported installed, WorkBuddy
/// included; WorkBuddy also where its application bundle is, any other
/// runtime only through its root directory.
pub proof fn root_directory_means_installed(rt: TargetRuntime, root_is_dir: bool, app_exists: bool)
    ensures
        root_is_dir ==> runtime_installed(rt, root_is_dir, app_exists),
        rt == TargetRuntime::Workbuddy ==> (runtime_installed(rt, root_is_dir, app_exists) <==> (root_is_dir
            || app_exists)),
        rt != TargetRuntime::Workbuddy ==> (runtime_installed(rt, root_is_dir, app_exists)
            <==> root_is_dir),
{
}

/// The detail line shown for `rt` with root directory `root`.
pub open spec fn runtime_detail(rt: TargetRuntime, root: Seq<char>, installed: bool) -> Seq<char> {
    if installed {
        root + " 根目录已存在"@
    } else {
        "未检测到 "@ + rt.display_name_spec() + "（"@ + root + "）"@
    }
}

/// `s` is what is reported of `rt` under home directory `home`, given
/// whether its root directory and the WorkBuddy application bundle exist.
pub open spec fn reports(
    s: RuntimeStatus,
    rt: TargetRuntime,
    home: Seq<char>,
    root_is_dir: bool,
    app_exists: bool,
) -> bool {
    let root = join_path(home, rt.root_dir_spec());
    let installed = runtime_installed(rt, root_is_dir, app_exists);
    &&& s.runtime@ == rt.id_spec()
    &&& s.display_name@ == rt.display_name_spec()
    &&& s.installed == installed
    &&& s.detail@ == runtime_detail(rt, root, installed)
    &&& s.install_hint_title@ == rt.install_hint_spec().0
    &&& s.install_hint_url@ == rt.install_hint_spec().1
}

/// The status of one runtime.
pub fn runtime_status(rt: TargetRuntime, home: &str, root_is_dir: bool, app_exists: bool) -> (r:
    RuntimeStatus)
    ensures
        reports(r, rt, home@, root_is_dir, app_exists),
{
    let root = rt.root(home);
    let installed = match rt {
        TargetRuntime::Workbuddy => root_is_dir || app_exists,
        _ => root_is_dir,
    };
    let mut detail = String::new();
    if installed {
        push_str(&mut detail, root.as_str());
        push_str(&mut detail, " 根目录已存在");
    } else {
        push_str(&mut detail, "未检测到 ");
        push_str(&mut detail, rt.display_name());
        push_str(&mut detail, "（");
        push_str(&mut detail, root.as_str());
        push_str(&mut detail, "）");
    }
    let (title, url) = rt.install_hint();
    assert(detail@ =~= runtime_detail(rt, root@, installed));
    RuntimeStatus {
        runtime: rt.id(),
        display_name: rt.display_name(),
        installed,
        detail,
        install_hint_title: owned(title),
        install_hint_url: owned(url),
    }
}

/// The status of every runtime, in the order of `TargetRuntime::all`, given
/// for each whether its root directory under `home` is a directory, and
/// whether the WorkBuddy application bundle exists.
pub fn detect_runtimes(home: &str, root_is_dir: &[bool; 4], workbuddy_app_exists: bool) -> (r: Vec<
    RuntimeStatus,
>)
    ensures
        r@.len() == 4,
        forall|i: int|
            0 <= i < 4 ==> reports(
                #[trigger] r@[i],
                all_runtimes()[i],
                home@,
                root_is_dir@[i],
                workbuddy_app_exists,
            ),
{
    let all = TargetRuntime::all();
    let mut r: Vec<RuntimeStatus> = Vec::new();
    let mut i: usize = 0;
    while i < 4
        invariant
            i <= 4,
            all@ == all_runtimes(),
            r@.len() == i,
            forall|j: int|
                0 <= j < i ==> reports(
                    #[trigger] r@[j],
                    all_runtimes()[j],
                    home@,
                    root_is_dir@[j],
                    workbuddy_app_exists,
                ),
        decreases 4 - i,
    {
        r.push(runtime_status(all[i], home, root_is_dir[i], workbuddy_app_exists));
        i = i + 1;
    }
    r
}

} // verus!
