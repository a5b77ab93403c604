//! Whether the executables of services and actions can be found: the paths
//! worth probing, and the verdict once they have been probed.

use vstd::prelude::*;

use crate::config::{cwd_spec, ProjectConfig};
use crate::error::{AppError, AppResult, ExitCode};
use crate::name_map::lookup;
use crate::paths::{is_absolute, is_absolute_spec, join, join_spec};
use crate::planning::RunPlan;
use crate::text::{concat2, concat3, decimal, dec_digits, views};

verus! {

/// An executable named with a directory part is looked up as a path, not
/// on `PATH`.
pub open spec fn path_like(exe: Seq<char>) -> bool {
    exe.contains('/') || exe.contains('\\')
}

/// The candidates for `exe` in one `PATH` directory.
pub open spec fn dir_candidates(dir: Seq<char>, exe: Seq<char>, exts: Seq<Seq<char>>) -> Seq<
    Seq<char>,
> {
    if exts.len() == 0 {
        seq![join_spec(dir, exe)]
    } else {
        exts.map_values(
            |e: Seq<char>|
                if e.len() == 0 {
                    join_spec(dir, exe)
                } else {
                    join_spec(dir, exe + e)
                },
        )
    }
}

/// The candidates for `exe` in the first `k` `PATH` directories.
pub open spec fn path_candidates(
    dirs: Seq<Seq<char>>,
    exe: Seq<char>,
    exts: Seq<Seq<char>>,
    k: int,
) -> Seq<Seq<char>>
    decreases k,
{
    if k <= 0 || k > dirs.len() {
        Seq::empty()
    } else {
        path_candidates(dirs, exe, exts, k - 1) + dir_candidates(dirs[k - 1], exe, exts)
    }
}

/// Every file whose existence makes `exe` runnable from `working_dir`.
pub open spec fn candidates_spec(
    exe: Seq<char>,
    working_dir: Seq<char>,
    dirs: Seq<Seq<char>>,
    exts: Seq<Seq<char>>,
) -> Seq<Seq<char>> {
    if path_like(exe) {
        if is_absolute_spec(exe) {
            seq![exe]
        } else {
            seq![join_spec(working_dir, exe)]
        }
    } else {
        path_candidates(dirs, exe, exts, dirs.len() as int)
    }
}

fn contains_char(s: &str, c: char) -> (r: bool)
    ensures
        r == s@.contains(c),
{
    let n = s.unicode_len();
    let mut i: usize = 0;
    while i < n
        invariant
            n == s@.len(),
            i <= n,
            forall|j: int| 0 <= j < i ==> s@[j] != c,
        decreases n - i,
    {
        if s.get_char(i) == c {
            proof {
                assert(s@[i as int] == c);
            }
            return true;
        }
        i = i + 1;
    }
    false
}

/// The files to look for when deciding whether `executable` can run from
/// `working_dir`, given the directories of `PATH` and the executable
/// extensions of the platform (none on Unix).  The executable exists when
/// any of them is a file.
pub fn executable_candidates(
    executable: &str,
    working_dir: &str,
    path_dirs: &Vec<String>,
    extensions: &Vec<String>,
) -> (r: Vec<String>)
    ensures
        views(r@) == candidates_spec(executable@, working_dir@, views(path_dirs@), views(extensions@)),
{
    if contains_char(executable, '/') || contains_char(executable, '\\') {
        let mut out: Vec<String> = Vec::new();
        if is_absolute(executable) {
            out.push(executable.to_owned());
        } else {
            out.push(join(working_dir, executable));
        }
        proof {
            assert(views(out@) =~= candidates_spec(
                executable@,
                working_dir@,
                views(path_dirs@),
                views(extensions@),
            ));
        }
        return out;
    }
    let ghost dirs = views(path_dirs@);
    let ghost exts = views(extensions@);
    let mut out: Vec<String> = Vec::new();
    let n = path_dirs.len();
    let mut i: usize = 0;
    while i < n
        invariant
            n == dirs.len(),
            dirs == views(path_dirs@),
            exts == views(extensions@),
            i <= n,
            views(out@) == path_candidates(dirs, executable@, exts, i as int),
        decreases n - i,
    {
        let dir = path_dirs[i].as_str();
        let ghost before = views(out@);
        if extensions.len() == 0 {
            let c = join(dir, executable);
            out.push(c);
            proof {
                assert(views(out@) =~= before + dir_candidates(dir@, executable@, exts));
            }
        } else {
            let m = extensions.len();
            let mut j: usize = 0;
            while j < m
                invariant
                    m == exts.len(),
                    exts == views(extensions@),
                    m > 0,
                    j <= m,
                    views(out@) == before + dir_candidates(dir@, executable@, exts).take(j as int),
                decreases m - j,
            {
                let ext = extensions[j].as_str();
                let ghost prev = views(out@);
                let c = if ext.unicode_len() == 0 {
                    join(dir, executable)
                } else {
                    let name = concat2(executable, ext);
                    join(dir, name.as_str())
                };
                out.push(c);
                proof {
                    assert(exts[j as int] == ext@);
                    assert(views(out@) =~= prev.push(c@));
                    assert(dir_candidates(dir@, executable@, exts).take(j + 1) =~= dir_candidates(
                        dir@,
                        executable@,
                        exts,
                    ).take(j as int).push(c@));
                }
                j = j + 1;
            }
            proof {
                assert(dir_candidates(dir@, executable@, exts).take(m as int) =~= dir_candidates(
                    dir@,
                    executable@,
                    exts,
                ));
            }
        }
        proof {
            assert(dirs[i as int] == dir@);
            assert(views(out@) =~= path_candidates(dirs, executable@, exts, i + 1));
        }
        i = i + 1;
    }
    out
}

/// The message for an executable that was not found.
pub open spec fn missing_executable_message(kind: Seq<char>, name: Seq<char>, exe: Seq<char>) -> Seq<
    char,
> {
    kind + " `"@ + name + "` executable `"@ + exe + "` was not found on PATH or as a local file"@
}

fn missing_executable(kind: &str, name: &str, executable: &str) -> (r: AppError)
    ensures
        r.exit_code == ExitCode::ConfigInvalid,
        r.message@ == missing_executable_message(kind@, name@, executable@),
{
    proof {
        reveal_strlit(" `");
        reveal_strlit("` executable `");
        reveal_strlit("` was not found on PATH or as a local file");
    }
    let mut m = concat3(kind, " `", name);
    m.append("` executable `");
    m.append(executable);
    m.append("` was not found on PATH or as a local file");
    AppError::config_invalid(m)
}

impl ProjectConfig {
    /// Whether service `name` can run, given whether its executable, resolved
    /// against its working directory, was `found`.
    pub fn executable_exists(&self, name: &str, project_root: &str, found: bool) -> (r: AppResult<
        (),
    >)
        ensures
            match lookup(self.services.pairs(), name@) {
                None => r matches Err(e) && e.exit_code == ExitCode::ConfigInvalid && e.message@
                    == "service `"@ + name@ + "` not found in configuration"@,
                Some(s) => if s.disabled == Some(true) {
                    r matches Err(e) && e.exit_code == ExitCode::ConfigInvalid && e.message@
                        == "service `"@ + name@ + "` is disabled and cannot be started"@
                } else if found {
                    r is Ok
                } else {
                    r matches Err(e) && e.exit_code == ExitCode::ConfigInvalid && e.message@
                        == missing_executable_message("service"@, name@, s.executable@)
                },
            },
    {
        let resolved = match self.resolve_service(name, project_root) {
            Ok(s) => s,
            Err(e) => {
                return Err(e);
            },
        };
        if found {
            return Ok(());
        }
        proof {
            reveal_strlit("service");
        }
        Err(missing_executable("service", name, resolved.executable.as_str()))
    }

    /// Whether action `name` can run, given whether its executable, resolved
    /// against its working directory, was `found`; a disabled action never
    /// runs and passes.
    pub fn action_executable_exists(&self, name: &str, project_root: &str, found: bool) -> (r:
        AppResult<()>)
        ensures
            match lookup(self.actions.pairs(), name@) {
                None => r matches Err(e) && e.exit_code == ExitCode::ConfigInvalid && e.message@
                    == "action `"@ + name@ + "` not found in configuration"@,
                Some(a) => if a.disabled == Some(true) || found {
                    r is Ok
                } else {
                    r matches Err(e) && e.exit_code == ExitCode::ConfigInvalid && e.message@
                        == missing_executable_message("action"@, name@, a.executable@)
                },
            },
    {
        let action = match self.actions.get(name) {
            Some(a) => a,
            None => {
                return Err(
                    AppError::config_invalid(concat3("action `", name, "` not found in configuration")),
                );
            },
        };
        if action.is_disabled() || found {
            return Ok(());
        }
        proof {
            reveal_strlit("action");
        }
        Err(missing_executable("action", name, action.executable.as_str()))
    }
}

/// The report of a successful check.
pub open spec fn check_report(services: nat, actions: nat, config_path: Seq<char>) -> Seq<char> {
    "configuration ok: "@ + dec_digits(services) + " service(s), "@ + dec_digits(actions)
        + " action(s) validated from "@ + config_path
}

/// The first failure among the first `k` services of the plan.
pub open spec fn first_service_failure(
    plan: RunPlan,
    config: ProjectConfig,
    found: Seq<bool>,
    k: int,
) -> Option<Seq<char>>
    decreases k,
{
    if k <= 0 || k > plan.services@.len() {
        None
    } else {
        match first_service_failure(plan, config, found, k - 1) {
            Some(m) => Some(m),
            None => {
                let name = plan.services@[k - 1].name@;
                match lookup(config.services.pairs(), name) {
                    None => Some("service `"@ + name + "` not found in configuration"@),
                    Some(s) => if s.disabled == Some(true) {
                        Some("service `"@ + name + "` is disabled and cannot be started"@)
                    } else if found[k - 1] {
                        None
                    } else {
                        Some(missing_executable_message("service"@, name, s.executable@))
                    },
                }
            },
        }
    }
}

/// The first failure among the first `k` actions of the plan.
pub open spec fn first_action_failure(
    plan: RunPlan,
    config: ProjectConfig,
    found: Seq<bool>,
    k: int,
) -> Option<Seq<char>>
    decreases k,
{
    if k <= 0 || k > plan.actions.pairs().len() {
        None
    } else {
        match first_action_failure(plan, config, found, k - 1) {
            Some(m) => Some(m),
            None => {
                let name = plan.actions.pairs()[k - 1].1.name@;
                match lookup(config.actions.pairs(), name) {
                    None => Some("action `"@ + name + "` not found in configuration"@),
                    Some(a) => if a.disabled == Some(true) || found[k - 1] {
                        None
                    } else {
                        Some(missing_executable_message("action"@, name, a.executable@))
                    },
                }
            },
        }
    }
}

/// Checks that every planned service and action can run, given whether
/// each one's executable was found (in plan order), and gives the report
/// to print.
pub fn run_check(
    plan: &RunPlan,
    config: &ProjectConfig,
    service_found: &Vec<bool>,
    action_found: &Vec<bool>,
) -> (r: AppResult<String>)
    requires
        service_found@.len() == plan.services@.len(),
        action_found@.len() == plan.actions.pairs().len(),
    ensures
        match first_service_failure(*plan, *config, service_found@, plan.services@.len() as int) {
            Some(m) => r matches Err(e) && e.exit_code == ExitCode::ConfigInvalid && e.message@ == m,
            None => match first_action_failure(
                *plan,
                *config,
                action_found@,
                plan.actions.pairs().len() as int,
            ) {
                Some(m) => r matches Err(e) && e.exit_code == ExitCode::ConfigInvalid && e.message@
                    == m,
                None => r matches Ok(report) && report@ == check_report(
                    plan.services@.len() as nat,
                    plan.actions.pairs().len() as nat,
                    plan.config_path@,
                ),
            },
        },
{
    let n = plan.services.len();
    let mut i: usize = 0;
    while i < n
        invariant
            n == plan.services@.len(),
            service_found@.len() == n,
            i <= n,
            first_service_failure(*plan, *config, service_found@, i as int) is None,
        decreases n - i,
    {
        match config.executable_exists(
            plan.services[i].name.as_str(),
            plan.project_root.as_str(),
            service_found[i],
        ) {
            Ok(()) => {},
            Err(e) => {
                proof {
                    assert(first_service_failure(*plan, *config, service_found@, i + 1) == Some(
                        e.message@,
                    ));
                    lemma_failure_stays(*plan, *config, service_found@, i + 1);
                }
                return Err(e);
            },
        }
        i = i + 1;
    }
    let m = plan.actions.len();
    let mut j: usize = 0;
    while j < m
        invariant
            m == plan.actions.pairs().len(),
            action_found@.len() == m,
            n == plan.services@.len(),
            j <= m,
            first_service_failure(*plan, *config, service_found@, n as int) is None,
            first_action_failure(*plan, *config, action_found@, j as int) is None,
        decreases m - j,
    {
        match config.action_executable_exists(
            plan.actions.value_at(j).name.as_str(),
            plan.project_root.as_str(),
            action_found[j],
        ) {
            Ok(()) => {},
            Err(e) => {
                proof {
                    let name = plan.actions.pairs()[j as int].1.name@;
                    assert(action_found@[j as int] == action_found[j as int]);
                    assert(first_action_failure(*plan, *config, action_found@, j as int) is None);
                    assert(first_action_failure(*plan, *config, action_found@, j + 1) == Some(
                        e.message@,
                    ));
                    lemma_action_failure_stays(*plan, *config, action_found@, j + 1);
                }
                return Err(e);
            },
        }
        j = j + 1;
    }
    proof {
        reveal_strlit("configuration ok: ");
        reveal_strlit(" service(s), ");
        reveal_strlit(" action(s) validated from ");
    }
    let mut report = concat2("configuration ok: ", decimal(n as u64).as_str());
    report.append(" service(s), ");
    report.append(decimal(m as u64).as_str());
    report.append(" action(s) validated from ");
    report.append(plan.config_path.as_str());
    Ok(report)
}

/// Once a service failure is found, later services do not change it.
pub proof fn lemma_failure_stays(plan: RunPlan, config: ProjectConfig, found: Seq<bool>, k: int)
    requires
        0 <= k <= plan.services@.len(),
        first_service_failure(plan, config, found, k) is Some,
    ensures
        first_service_failure(plan, config, found, plan.services@.len() as int)
            == first_service_failure(plan, config, found, k),
    decreases plan.services@.len() - k,
{
    if k < plan.services@.len() {
        assert(first_service_failure(plan, config, found, k + 1) == first_service_failure(
            plan,
            config,
            found,
            k,
        ));
        lemma_failure_stays(plan, config, found, k + 1);
    }
}

/// Once an action failure is found, later actions do not change it.
pub proof fn lemma_action_failure_stays(
    plan: RunPlan,
    config: ProjectConfig,
    found: Seq<bool>,
    k: int,
)
    requires
        0 <= k <= plan.actions.pairs().len(),
        first_action_failure(plan, config, found, k) is Some,
    ensures
        first_action_failure(plan, config, found, plan.actions.pairs().len() as int)
            == first_action_failure(plan, config, found, k),
    decreases plan.actions.pairs().len() - k,
{
    if k < plan.actions.pairs().len() {
        assert(first_action_failure(plan, config, found, k + 1) == first_action_failure(
            plan,
            config,
            found,
            k,
        ));
        lemma_action_failure_stays(plan, config, found, k + 1);
    }
}

} // verus!
