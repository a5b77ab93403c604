//! The `list` command: the configured services and actions as names, as
//! field-by-field detail, or as a dependency and hook-reference graph.

use vstd::prelude::*;

use crate::cli::ListArgs;
use crate::config::{
    hook_actions, hook_references, hook_text, ActionConfig, HookName, LogConfig,
    LogOverflowStrategy, ProjectConfig, RestartPolicy, ServiceConfig, ServiceHooksConfig,
    ServiceWatchConfig,
};
use crate::name_map::{lookup, NameMap};
use crate::text::{concat2, concat3, dec_digits, decimal, join, join_spec, views};

verus! {

/// How std's `Debug` renders a string: quoted, with escapes.
pub uninterp spec fn str_debug(s: Seq<char>) -> Seq<char>;

/// `format!("{:?}", s)`.
#[verifier::external_body]
fn debug_str(s: &str) -> (r: String)
    ensures
        r@ == str_debug(s@),
{
    format!("{:?}", s)
}

/// A list of strings as `Debug` shows it: `["a", "b"]`.
pub open spec fn list_debug(items: Seq<Seq<char>>) -> Seq<char> {
    "["@ + join_spec(items.map_values(|s: Seq<char>| str_debug(s)), ", "@) + "]"@
}

/// A string map as `Debug` shows it: `{"k": "v"}`.
pub open spec fn map_debug(ps: Seq<(Seq<char>, String)>) -> Seq<char> {
    "{"@ + join_spec(
        ps.map_values(|e: (Seq<char>, String)| str_debug(e.0) + ": "@ + str_debug(e.1@)),
        ", "@,
    ) + "}"@
}

/// Renders a list of strings as `Debug` does.
pub fn format_string_list(items: &Vec<String>) -> (r: String)
    ensures
        r@ == list_debug(views(items@)),
{
    let mut parts: Vec<String> = Vec::new();
    let n = items.len();
    let mut i: usize = 0;
    while i < n
        invariant
            n == items@.len(),
            i <= n,
            views(parts@) == views(items@).map_values(|s: Seq<char>| str_debug(s)).take(i as int),
        decreases n - i,
    {
        let ghost prev = views(parts@);
        let d = debug_str(items[i].as_str());
        parts.push(d);
        proof {
            assert(views(parts@) =~= prev.push(d@));
            assert(views(items@).map_values(|s: Seq<char>| str_debug(s)).take(i + 1)
                =~= views(items@).map_values(|s: Seq<char>| str_debug(s)).take(i as int).push(d@));
        }
        i = i + 1;
    }
    proof {
        assert(views(items@).map_values(|s: Seq<char>| str_debug(s)).take(n as int)
            =~= views(items@).map_values(|s: Seq<char>| str_debug(s)));
        reveal_strlit("[");
        reveal_strlit("]");
    }
    concat3("[", join(&parts, ", ").as_str(), "]")
}

/// An environment map: `{}` when empty, else as `Debug` shows it.
pub open spec fn env_text(ps: Seq<(Seq<char>, String)>) -> Seq<char> {
    if ps.len() == 0 {
        "{}"@
    } else {
        map_debug(ps)
    }
}

/// Renders a string map, `{}` when empty.
pub fn format_string_map(values: &NameMap<String>) -> (r: String)
    ensures
        r@ == env_text(values.pairs()),
{
    let ghost ps = values.pairs();
    let n = values.len();
    if n == 0 {
        proof {
            reveal_strlit("{}");
        }
        return "{}".to_owned();
    }
    let mut parts: Vec<String> = Vec::new();
    let mut i: usize = 0;
    while i < n
        invariant
            n == ps.len(),
            ps == values.pairs(),
            i <= n,
            views(parts@) == ps.map_values(
                |e: (Seq<char>, String)| str_debug(e.0) + ": "@ + str_debug(e.1@),
            ).take(i as int),
        decreases n - i,
    {
        let ghost prev = views(parts@);
        let k = debug_str(values.name_at(i).as_str());
        let v = debug_str(values.value_at(i).as_str());
        let part = concat3(k.as_str(), ": ", v.as_str());
        parts.push(part);
        proof {
            assert(views(parts@) =~= prev.push(part@));
            assert(ps.map_values(|e: (Seq<char>, String)| str_debug(e.0) + ": "@ + str_debug(e.1@)).take(
                i + 1,
            ) =~= ps.map_values(
                |e: (Seq<char>, String)| str_debug(e.0) + ": "@ + str_debug(e.1@),
            ).take(i as int).push(part@));
        }
        i = i + 1;
    }
    proof {
        assert(ps.map_values(|e: (Seq<char>, String)| str_debug(e.0) + ": "@ + str_debug(e.1@)).take(
            n as int,
        ) =~= ps.map_values(|e: (Seq<char>, String)| str_debug(e.0) + ": "@ + str_debug(e.1@)));
        reveal_strlit("{");
        reveal_strlit("}");
    }
    concat3("{", join(&parts, ", ").as_str(), "}")
}

/// ` [disabled]` after a disabled item's name.
pub open spec fn disabled_suffix(disabled: bool) -> Seq<char> {
    if disabled {
        " [disabled]"@
    } else {
        Seq::empty()
    }
}

/// A name with its disabled marker.
pub open spec fn name_item(name: Seq<char>, disabled: bool) -> Seq<char> {
    name + disabled_suffix(disabled)
}

pub fn format_disabled_suffix(disabled: bool) -> (r: &'static str)
    ensures
        r@ == disabled_suffix(disabled),
{
    proof {
        reveal_strlit(" [disabled]");
        reveal_strlit("");
    }
    if disabled {
        " [disabled]"
    } else {
        ""
    }
}

pub fn format_name_item(name: &str, disabled: bool) -> (r: String)
    ensures
        r@ == name_item(name@, disabled),
{
    concat2(name, format_disabled_suffix(disabled))
}

/// An optional text, `none` when absent.
pub open spec fn opt_text(o: Option<String>) -> Seq<char> {
    match o {
        Some(v) => v@,
        None => "none"@,
    }
}

pub fn format_optional_string(value: &Option<String>) -> (r: String)
    ensures
        r@ == opt_text(*value),
{
    proof {
        reveal_strlit("none");
    }
    match value {
        Some(v) => v.clone(),
        None => "none".to_owned(),
    }
}

/// An optional number, `none` when absent.
pub open spec fn opt_u64_text(o: Option<u64>) -> Seq<char> {
    match o {
        Some(v) => dec_digits(v as nat),
        None => "none"@,
    }
}

pub fn format_optional_u64(value: Option<u64>) -> (r: String)
    ensures
        r@ == opt_u64_text(value),
{
    proof {
        reveal_strlit("none");
    }
    match value {
        Some(v) => decimal(v),
        None => "none".to_owned(),
    }
}

/// `true` or `false`.
pub open spec fn bool_text(b: bool) -> Seq<char> {
    if b {
        "true"@
    } else {
        "false"@
    }
}

fn format_bool(b: bool) -> (r: String)
    ensures
        r@ == bool_text(b),
{
    proof {
        reveal_strlit("true");
        reveal_strlit("false");
    }
    if b {
        "true".to_owned()
    } else {
        "false".to_owned()
    }
}

/// An optional flag, `none` when absent.
pub open spec fn opt_bool_text(o: Option<bool>) -> Seq<char> {
    match o {
        Some(b) => bool_text(b),
        None => "none"@,
    }
}

pub fn format_optional_bool(value: Option<bool>) -> (r: String)
    ensures
        r@ == opt_bool_text(value),
{
    proof {
        reveal_strlit("none");
    }
    match value {
        Some(b) => format_bool(b),
        None => "none".to_owned(),
    }
}

/// A restart policy as configured.
pub open spec fn restart_text(p: Option<RestartPolicy>) -> Seq<char> {
    match p {
        Some(RestartPolicy::No) => "no"@,
        Some(RestartPolicy::OnFailure) => "on-failure"@,
        Some(RestartPolicy::Always) => "always"@,
        None => "none"@,
    }
}

pub fn format_restart_policy(policy: Option<RestartPolicy>) -> (r: String)
    ensures
        r@ == restart_text(policy),
{
    proof {
        reveal_strlit("no");
        reveal_strlit("on-failure");
        reveal_strlit("always");
        reveal_strlit("none");
    }
    match policy {
        Some(RestartPolicy::No) => "no".to_owned(),
        Some(RestartPolicy::OnFailure) => "on-failure".to_owned(),
        Some(RestartPolicy::Always) => "always".to_owned(),
        None => "none".to_owned(),
    }
}

/// An overflow strategy as configured.
pub open spec fn overflow_text(s: Option<LogOverflowStrategy>) -> Seq<char> {
    match s {
        Some(LogOverflowStrategy::Rotate) => "rotate"@,
        Some(LogOverflowStrategy::Archive) => "archive"@,
        None => "none"@,
    }
}

pub fn format_overflow_strategy(strategy: Option<LogOverflowStrategy>) -> (r: String)
    ensures
        r@ == overflow_text(strategy),
{
    proof {
        reveal_strlit("rotate");
        reveal_strlit("archive");
        reveal_strlit("none");
    }
    match strategy {
        Some(LogOverflowStrategy::Rotate) => "rotate".to_owned(),
        Some(LogOverflowStrategy::Archive) => "archive".to_owned(),
        None => "none".to_owned(),
    }
}

/// A log configuration on one line.
pub open spec fn log_text(log: Option<LogConfig>) -> Seq<char> {
    match log {
        Some(l) => "file="@ + l.file@ + " append="@ + bool_text(l.append) + " max_file_bytes="@
            + opt_u64_text(l.max_file_bytes) + " overflow_strategy="@ + overflow_text(
            l.overflow_strategy,
        ) + " rotate_file_count="@ + match l.rotate_file_count {
            Some(c) => dec_digits(c as nat),
            None => "none"@,
        },
        None => "none"@,
    }
}

pub fn format_log_config(log: &Option<LogConfig>) -> (r: String)
    ensures
        r@ == log_text(*log),
{
    proof {
        reveal_strlit("none");
        reveal_strlit("file=");
        reveal_strlit(" append=");
        reveal_strlit(" max_file_bytes=");
        reveal_strlit(" overflow_strategy=");
        reveal_strlit(" rotate_file_count=");
    }
    match log {
        None => "none".to_owned(),
        Some(l) => {
            let mut out = concat2("file=", l.file.as_str());
            out.append(" append=");
            out.append(format_bool(l.append).as_str());
            out.append(" max_file_bytes=");
            out.append(format_optional_u64(l.max_file_bytes).as_str());
            out.append(" overflow_strategy=");
            out.append(format_overflow_strategy(l.overflow_strategy).as_str());
            out.append(" rotate_file_count=");
            let count = match l.rotate_file_count {
                Some(c) => decimal(c as u64),
                None => "none".to_owned(),
            };
            out.append(count.as_str());
            out
        },
    }
}

/// A watch configuration on one line.
pub open spec fn watch_text(watch: Option<ServiceWatchConfig>) -> Seq<char> {
    match watch {
        Some(w) => "paths="@ + list_debug(views(w.paths@)) + " debounce_ms="@ + opt_u64_text(
            w.debounce_ms,
        ),
        None => "none"@,
    }
}

pub fn format_watch_config(watch: &Option<ServiceWatchConfig>) -> (r: String)
    ensures
        r@ == watch_text(*watch),
{
    proof {
        reveal_strlit("none");
        reveal_strlit("paths=");
        reveal_strlit(" debounce_ms=");
    }
    match watch {
        None => "none".to_owned(),
        Some(w) => {
            let mut out = concat2("paths=", format_string_list(&w.paths).as_str());
            out.append(" debounce_ms=");
            out.append(format_optional_u64(w.debounce_ms).as_str());
            out
        },
    }
}

} // verus!

verus! {

/// A section: its title line, then its items, or `- (none)`.
pub open spec fn plain_section(title: Seq<char>, items: Seq<Seq<char>>) -> Seq<char> {
    join_spec(
        seq![title + ":"@] + if items.len() == 0 {
            seq!["- (none)"@]
        } else {
            items
        },
        "\n"@,
    )
}

/// A section of names, each after a dash.
pub open spec fn name_section(title: Seq<char>, items: Seq<Seq<char>>) -> Seq<char> {
    plain_section(title, items.map_values(|i: Seq<char>| "- "@ + i))
}

pub fn render_plain_section(title: &str, items: &Vec<String>) -> (r: String)
    ensures
        r@ == plain_section(title@, views(items@)),
{
    proof {
        reveal_strlit(":");
        reveal_strlit("- (none)");
    }
    let mut lines: Vec<String> = Vec::new();
    lines.push(concat2(title, ":"));
    if items.len() == 0 {
        lines.push("- (none)".to_owned());
    } else {
        let n = items.len();
        let mut i: usize = 0;
        while i < n
            invariant
                n == items@.len(),
                i <= n,
                views(lines@) == seq![title@ + ":"@] + views(items@).take(i as int),
            decreases n - i,
        {
            let ghost prev = views(lines@);
            lines.push(items[i].clone());
            proof {
                assert(views(lines@) =~= prev.push(items@[i as int]@));
                assert(views(items@).take(i + 1) =~= views(items@).take(i as int).push(
                    items@[i as int]@,
                ));
            }
            i = i + 1;
        }
        proof {
            assert(views(items@).take(n as int) =~= views(items@));
        }
    }
    proof {
        assert(views(lines@) =~= seq![title@ + ":"@] + if items@.len() == 0 {
            seq!["- (none)"@]
        } else {
            views(items@)
        });
    }
    join(&lines, "\n")
}

pub fn render_name_section(title: &str, items: &Vec<String>) -> (r: String)
    ensures
        r@ == name_section(title@, views(items@)),
{
    proof {
        reveal_strlit("- ");
    }
    let mut dashed: Vec<String> = Vec::new();
    let n = items.len();
    let mut i: usize = 0;
    while i < n
        invariant
            n == items@.len(),
            i <= n,
            views(dashed@) == views(items@).map_values(|s: Seq<char>| "- "@ + s).take(i as int),
        decreases n - i,
    {
        let ghost prev = views(dashed@);
        let d = concat2("- ", items[i].as_str());
        dashed.push(d);
        proof {
            assert(views(dashed@) =~= prev.push(d@));
            assert(views(items@).map_values(|s: Seq<char>| "- "@ + s).take(i + 1) =~= views(
                items@,
            ).map_values(|s: Seq<char>| "- "@ + s).take(i as int).push(d@));
        }
        i = i + 1;
    }
    proof {
        assert(views(items@).map_values(|s: Seq<char>| "- "@ + s).take(n as int) =~= views(
            items@,
        ).map_values(|s: Seq<char>| "- "@ + s));
    }
    render_plain_section(title, &dashed)
}

/// The hook lines of a service's detail among the first `k` hooks.
pub open spec fn hook_detail_upto(hooks: ServiceHooksConfig, k: int) -> Seq<Seq<char>>
    decreases k,
{
    if k <= 0 || k > 8 {
        Seq::empty()
    } else {
        let h = crate::config::all_hooks()[k - 1];
        hook_detail_upto(hooks, k - 1) + if hook_actions(hooks, h).len() == 0 {
            Seq::empty()
        } else {
            seq!["    "@ + hook_text(h) + ": "@ + list_debug(views(hook_actions(hooks, h)))]
        }
    }
}

/// The hook lines of a service's detail.
pub open spec fn hooks_lines(hooks: ServiceHooksConfig) -> Seq<Seq<char>> {
    if forall|h: HookName| hook_actions(hooks, h).len() == 0 {
        seq!["  hooks: none"@]
    } else {
        seq!["  hooks:"@] + hook_detail_upto(hooks, 8)
    }
}

/// The detail lines of service `name`.
pub open spec fn service_detail_lines(name: Seq<char>, s: ServiceConfig) -> Seq<Seq<char>> {
    seq![
        "- "@ + name_item(name, s.disabled == Some(true)),
        "  executable: "@ + s.executable@,
        "  args: "@ + list_debug(views(s.args@)),
        "  cwd: "@ + opt_text(s.cwd),
        "  env: "@ + env_text(s.env.pairs()),
        "  depends_on: "@ + list_debug(views(s.depends_on@)),
        "  restart: "@ + restart_text(s.restart),
        "  stop_signal: "@ + opt_text(s.stop_signal),
        "  stop_timeout_secs: "@ + opt_u64_text(s.stop_timeout_secs),
        "  autostart: "@ + opt_bool_text(s.autostart),
        "  disabled: "@ + bool_text(s.disabled == Some(true)),
        "  log: "@ + log_text(s.log),
        "  watch: "@ + watch_text(s.watch),
    ] + hooks_lines(s.hooks)
}

/// The detail lines of action `name`.
pub open spec fn action_detail_lines(name: Seq<char>, a: ActionConfig) -> Seq<Seq<char>> {
    seq![
        "- "@ + name_item(name, a.disabled == Some(true)),
        "  executable: "@ + a.executable@,
        "  args: "@ + list_debug(views(a.args@)),
        "  cwd: "@ + opt_text(a.cwd),
        "  env: "@ + env_text(a.env.pairs()),
        "  timeout_secs: "@ + opt_u64_text(a.timeout_secs),
        "  disabled: "@ + bool_text(a.disabled == Some(true)),
    ]
}

fn push_line(lines: &mut Vec<String>, line: String)
    ensures
        views(final(lines)@) == views(old(lines)@).push(line@),
{
    lines.push(line);
    proof {
        assert(views(lines@) =~= views(old(lines)@).push(line@));
    }
}

fn hook_detail_lines(hooks: &ServiceHooksConfig) -> (r: Vec<String>)
    ensures
        views(r@) == hooks_lines(*hooks),
{
    let mut lines: Vec<String> = Vec::new();
    proof {
        reveal_strlit("  hooks: none");
        reveal_strlit("  hooks:");
        reveal_strlit("    ");
        reveal_strlit(": ");
    }
    if hooks.is_empty() {
        push_line(&mut lines, "  hooks: none".to_owned());
        proof {
            assert(views(lines@) =~= hooks_lines(*hooks));
        }
        return lines;
    }
    push_line(&mut lines, "  hooks:".to_owned());
    let all = HookName::all();
    let mut k: usize = 0;
    while k < 8
        invariant
            all@ == crate::config::all_hooks(),
            k <= 8,
            views(lines@) == seq!["  hooks:"@] + hook_detail_upto(*hooks, k as int),
        decreases 8 - k,
    {
        let h = all[k];
        let actions = hooks.actions_for(h);
        proof {
            assert(crate::config::all_hooks()[k as int] == h);
        }
        if actions.len() > 0 {
            let mut line = concat3("    ", h.as_str(), ": ");
            line.append(format_string_list(actions).as_str());
            push_line(&mut lines, line);
        }
        proof {
            assert(views(lines@) =~= seq!["  hooks:"@] + hook_detail_upto(*hooks, k + 1));
        }
        k = k + 1;
    }
    lines
}

fn service_detail(name: &str, s: &ServiceConfig) -> (r: Vec<String>)
    ensures
        views(r@) == service_detail_lines(name@, *s),
{
    proof {
        reveal_strlit("- ");
        reveal_strlit("  executable: ");
        reveal_strlit("  args: ");
        reveal_strlit("  cwd: ");
        reveal_strlit("  env: ");
        reveal_strlit("  depends_on: ");
        reveal_strlit("  restart: ");
        reveal_strlit("  stop_signal: ");
        reveal_strlit("  stop_timeout_secs: ");
        reveal_strlit("  autostart: ");
        reveal_strlit("  disabled: ");
        reveal_strlit("  log: ");
        reveal_strlit("  watch: ");
    }
    let disabled = s.is_disabled();
    let mut lines: Vec<String> = Vec::new();
    push_line(&mut lines, concat2("- ", format_name_item(name, disabled).as_str()));
    push_line(&mut lines, concat2("  executable: ", s.executable.as_str()));
    push_line(&mut lines, concat2("  args: ", format_string_list(&s.args).as_str()));
    push_line(&mut lines, concat2("  cwd: ", format_optional_string(&s.cwd).as_str()));
    push_line(&mut lines, concat2("  env: ", format_string_map(&s.env).as_str()));
    push_line(&mut lines, concat2("  depends_on: ", format_string_list(&s.depends_on).as_str()));
    push_line(&mut lines, concat2("  restart: ", format_restart_policy(s.restart).as_str()));
    push_line(&mut lines, concat2("  stop_signal: ", format_optional_string(&s.stop_signal).as_str()));
    push_line(
        &mut lines,
        concat2("  stop_timeout_secs: ", format_optional_u64(s.stop_timeout_secs).as_str()),
    );
    push_line(&mut lines, concat2("  autostart: ", format_optional_bool(s.autostart).as_str()));
    push_line(&mut lines, concat2("  disabled: ", format_bool(disabled).as_str()));
    push_line(&mut lines, concat2("  log: ", format_log_config(&s.log).as_str()));
    push_line(&mut lines, concat2("  watch: ", format_watch_config(&s.watch).as_str()));
    let ghost head = views(lines@);
    let hook_lines = hook_detail_lines(&s.hooks);
    let m = hook_lines.len();
    let mut i: usize = 0;
    while i < m
        invariant
            m == hook_lines@.len(),
            i <= m,
            views(lines@) == head + views(hook_lines@).take(i as int),
        decreases m - i,
    {
        push_line(&mut lines, hook_lines[i].clone());
        proof {
            assert(views(hook_lines@).take(i + 1) =~= views(hook_lines@).take(i as int).push(
                hook_lines@[i as int]@,
            ));
        }
        i = i + 1;
    }
    proof {
        assert(views(hook_lines@).take(m as int) =~= views(hook_lines@));
        assert(views(lines@) =~= service_detail_lines(name@, *s));
    }
    lines
}

fn action_detail(name: &str, a: &ActionConfig) -> (r: Vec<String>)
    ensures
        views(r@) == action_detail_lines(name@, *a),
{
    proof {
        reveal_strlit("- ");
        reveal_strlit("  executable: ");
        reveal_strlit("  args: ");
        reveal_strlit("  cwd: ");
        reveal_strlit("  env: ");
        reveal_strlit("  timeout_secs: ");
        reveal_strlit("  disabled: ");
    }
    let disabled = a.is_disabled();
    let mut lines: Vec<String> = Vec::new();
    push_line(&mut lines, concat2("- ", format_name_item(name, disabled).as_str()));
    push_line(&mut lines, concat2("  executable: ", a.executable.as_str()));
    push_line(&mut lines, concat2("  args: ", format_string_list(&a.args).as_str()));
    push_line(&mut lines, concat2("  cwd: ", format_optional_string(&a.cwd).as_str()));
    push_line(&mut lines, concat2("  env: ", format_string_map(&a.env).as_str()));
    push_line(&mut lines, concat2("  timeout_secs: ", format_optional_u64(a.timeout_secs).as_str()));
    push_line(&mut lines, concat2("  disabled: ", format_bool(disabled).as_str()));
    proof {
        assert(views(lines@) =~= action_detail_lines(name@, *a));
    }
    lines
}

/// The text of detail lines, each ending its line.
pub open spec fn block_text(lines: Seq<Seq<char>>) -> Seq<char> {
    join_spec(lines, "\n"@) + "\n"@
}

/// Drops one trailing newline.
pub open spec fn trim_newline(s: Seq<char>) -> Seq<char> {
    if s.len() > 0 && s.last() == '\n' {
        s.drop_last()
    } else {
        s
    }
}

/// A detail section: its title, then its blocks separated by blank lines.
pub open spec fn detail_section(title: Seq<char>, blocks: Seq<Seq<char>>) -> Seq<char> {
    trim_newline(
        title + ":\n"@ + if blocks.len() == 0 {
            "- (none)\n"@
        } else {
            join_spec(blocks, "\n"@)
        },
    )
}

fn trim_trailing_newline(s: String) -> (r: String)
    ensures
        r@ == trim_newline(s@),
{
    let n = s.unicode_len();
    if n > 0 && s.get_char(n - 1) == '\n' {
        let t = s.substring_char(0, n - 1);
        proof {
            assert(t@ =~= s@.drop_last());
        }
        t.to_owned()
    } else {
        s
    }
}

} // verus!

verus! {

/// Which kinds of item a listing shows.
#[derive(Debug, Clone, Copy, PartialEq, Eq, Structural)]
pub enum ListScope {
    All,
    Services,
    Actions,
}

/// How a listing shows them.
#[derive(Debug, Clone, Copy, PartialEq, Eq, Structural)]
pub enum ListMode {
    Names,
    Detail,
    Dag,
}

/// What `list` was asked to show.
#[derive(Debug, Clone, Copy, PartialEq, Eq, Structural)]
pub struct ListRequest {
    pub scope: ListScope,
    pub mode: ListMode,
}

impl ListRequest {
    /// The request described by the flags of `list`: both or neither of
    /// `--services` and `--actions`, or `--all`, list everything; `--DAG`
    /// wins over `--detail`.
    pub fn from_args(args: ListArgs) -> (r: Self)
        ensures
            r.scope == (if args.all || (args.services && args.actions) || (!args.services
                && !args.actions) {
                ListScope::All
            } else if args.services {
                ListScope::Services
            } else {
                ListScope::Actions
            }),
            r.mode == (if args.dag {
                ListMode::Dag
            } else if args.detail {
                ListMode::Detail
            } else {
                ListMode::Names
            }),
    {
        let scope = if args.all || (args.services && args.actions) || (!args.services
            && !args.actions) {
            ListScope::All
        } else if args.services {
            ListScope::Services
        } else {
            ListScope::Actions
        };
        let mode = if args.dag {
            ListMode::Dag
        } else if args.detail {
            ListMode::Detail
        } else {
            ListMode::Names
        };
        ListRequest { scope, mode }
    }
}

pub open spec fn shows_services(scope: ListScope) -> bool {
    scope == ListScope::All || scope == ListScope::Services
}

pub open spec fn shows_actions(scope: ListScope) -> bool {
    scope == ListScope::All || scope == ListScope::Actions
}

/// The services as names with their disabled markers.
pub open spec fn service_items(ps: Seq<(Seq<char>, ServiceConfig)>) -> Seq<Seq<char>> {
    ps.map_values(|e: (Seq<char>, ServiceConfig)| name_item(e.0, e.1.disabled == Some(true)))
}

/// The actions as names with their disabled markers.
pub open spec fn action_items(ps: Seq<(Seq<char>, ActionConfig)>) -> Seq<Seq<char>> {
    ps.map_values(|e: (Seq<char>, ActionConfig)| name_item(e.0, e.1.disabled == Some(true)))
}

/// The listing of names.
pub open spec fn names_listing(cfg: ProjectConfig, scope: ListScope) -> Seq<char> {
    join_spec(
        (if shows_services(scope) {
            seq![name_section("services"@, service_items(cfg.services.pairs()))]
        } else {
            Seq::empty()
        }) + (if shows_actions(scope) {
            seq![name_section("actions"@, action_items(cfg.actions.pairs()))]
        } else {
            Seq::empty()
        }),
        "\n\n"@,
    )
}

/// The detail blocks of the services.
pub open spec fn service_blocks(ps: Seq<(Seq<char>, ServiceConfig)>) -> Seq<Seq<char>> {
    ps.map_values(|e: (Seq<char>, ServiceConfig)| block_text(service_detail_lines(e.0, e.1)))
}

/// In the detailed listing, the block of each service is made of its
/// lines, and each labelled line shows the field of that label: the
/// executable, the arguments and the dependencies as `Debug` lists, the
/// working directory, the stop signal, timeout and flags.
pub proof fn lemma_service_detail_fields(ps: Seq<(Seq<char>, ServiceConfig)>, i: int)
    requires
        0 <= i < ps.len(),
    ensures
        ({
            let (name, s) = ps[i];
            let lines = service_detail_lines(name, s);
            &&& service_blocks(ps)[i] == block_text(lines)
            &&& lines.contains("  executable: "@ + s.executable@)
            &&& lines.contains("  args: "@ + list_debug(views(s.args@)))
            &&& lines.contains("  cwd: "@ + opt_text(s.cwd))
            &&& lines.contains("  depends_on: "@ + list_debug(views(s.depends_on@)))
            &&& lines.contains("  stop_signal: "@ + opt_text(s.stop_signal))
            &&& lines.contains("  stop_timeout_secs: "@ + opt_u64_text(s.stop_timeout_secs))
            &&& lines.contains("  autostart: "@ + opt_bool_text(s.autostart))
            &&& lines.contains("  disabled: "@ + bool_text(s.disabled == Some(true)))
        }),
{
    let (name, s) = ps[i];
    let lines = service_detail_lines(name, s);
    assert(lines[1] == "  executable: "@ + s.executable@);
    assert(lines[2] == "  args: "@ + list_debug(views(s.args@)));
    assert(lines[3] == "  cwd: "@ + opt_text(s.cwd));
    assert(lines[5] == "  depends_on: "@ + list_debug(views(s.depends_on@)));
    assert(lines[7] == "  stop_signal: "@ + opt_text(s.stop_signal));
    assert(lines[8] == "  stop_timeout_secs: "@ + opt_u64_text(s.stop_timeout_secs));
    assert(lines[9] == "  autostart: "@ + opt_bool_text(s.autostart));
    assert(lines[10] == "  disabled: "@ + bool_text(s.disabled == Some(true)));
}

/// In the detailed listing, each labelled line of an action's block shows
/// the field of that label.
pub proof fn lemma_action_detail_fields(name: Seq<char>, a: ActionConfig)
    ensures
        action_detail_lines(name, a).contains("  executable: "@ + a.executable@),
        action_detail_lines(name, a).contains("  args: "@ + list_debug(views(a.args@))),
        action_detail_lines(name, a).contains("  cwd: "@ + opt_text(a.cwd)),
        action_detail_lines(name, a).contains("  timeout_secs: "@ + opt_u64_text(a.timeout_secs)),
        action_detail_lines(name, a).contains("  disabled: "@ + bool_text(a.disabled == Some(true))),
{
    let lines = action_detail_lines(name, a);
    assert(lines[1] == "  executable: "@ + a.executable@);
    assert(lines[2] == "  args: "@ + list_debug(views(a.args@)));
    assert(lines[3] == "  cwd: "@ + opt_text(a.cwd));
    assert(lines[5] == "  timeout_secs: "@ + opt_u64_text(a.timeout_secs));
    assert(lines[6] == "  disabled: "@ + bool_text(a.disabled == Some(true)));
}

/// The detail blocks of the actions.
pub open spec fn action_blocks(ps: Seq<(Seq<char>, ActionConfig)>) -> Seq<Seq<char>> {
    ps.map_values(|e: (Seq<char>, ActionConfig)| block_text(action_detail_lines(e.0, e.1)))
}

/// The detailed listing.
pub open spec fn detail_listing(cfg: ProjectConfig, scope: ListScope) -> Seq<char> {
    join_spec(
        (if shows_services(scope) {
            seq![detail_section("services"@, service_blocks(cfg.services.pairs()))]
        } else {
            Seq::empty()
        }) + (if shows_actions(scope) {
            seq![detail_section("actions"@, action_blocks(cfg.actions.pairs()))]
        } else {
            Seq::empty()
        }),
        "\n\n"@,
    )
}

fn name_items_of_services(services: &NameMap<ServiceConfig>) -> (r: Vec<String>)
    ensures
        views(r@) == service_items(services.pairs()),
{
    let ghost ps = services.pairs();
    let mut out: Vec<String> = Vec::new();
    let n = services.len();
    let mut i: usize = 0;
    while i < n
        invariant
            n == ps.len(),
            ps == services.pairs(),
            i <= n,
            views(out@) == service_items(ps).take(i as int),
        decreases n - i,
    {
        let item = format_name_item(services.name_at(i).as_str(), services.value_at(i).is_disabled());
        push_line(&mut out, item);
        proof {
            assert(service_items(ps).take(i + 1) =~= service_items(ps).take(i as int).push(item@));
        }
        i = i + 1;
    }
    proof {
        assert(service_items(ps).take(n as int) =~= service_items(ps));
    }
    out
}

fn name_items_of_actions(actions: &NameMap<ActionConfig>) -> (r: Vec<String>)
    ensures
        views(r@) == action_items(actions.pairs()),
{
    let ghost ps = actions.pairs();
    let mut out: Vec<String> = Vec::new();
    let n = actions.len();
    let mut i: usize = 0;
    while i < n
        invariant
            n == ps.len(),
            ps == actions.pairs(),
            i <= n,
            views(out@) == action_items(ps).take(i as int),
        decreases n - i,
    {
        let item = format_name_item(actions.name_at(i).as_str(), actions.value_at(i).is_disabled());
        push_line(&mut out, item);
        proof {
            assert(action_items(ps).take(i + 1) =~= action_items(ps).take(i as int).push(item@));
        }
        i = i + 1;
    }
    proof {
        assert(action_items(ps).take(n as int) =~= action_items(ps));
    }
    out
}

/// Names of the services and actions in scope, each in its section.
pub fn render_list_names(config: &ProjectConfig, scope: ListScope) -> (r: String)
    ensures
        r@ == names_listing(*config, scope),
{
    proof {
        reveal_strlit("services");
        reveal_strlit("actions");
    }
    let mut sections: Vec<String> = Vec::new();
    if scope == ListScope::All || scope == ListScope::Services {
        let items = name_items_of_services(&config.services);
        push_line(&mut sections, render_name_section("services", &items));
    }
    let ghost mid = views(sections@);
    if scope == ListScope::All || scope == ListScope::Actions {
        let items = name_items_of_actions(&config.actions);
        push_line(&mut sections, render_name_section("actions", &items));
    }
    proof {
        assert(views(sections@) =~= (if shows_services(scope) {
            seq![name_section("services"@, service_items(config.services.pairs()))]
        } else {
            Seq::empty()
        }) + (if shows_actions(scope) {
            seq![name_section("actions"@, action_items(config.actions.pairs()))]
        } else {
            Seq::empty()
        }));
    }
    join(&sections, "\n\n")
}

fn lines_block(lines: &Vec<String>) -> (r: String)
    ensures
        r@ == block_text(views(lines@)),
{
    let mut out = join(lines, "\n");
    out.append("\n");
    out
}

fn detail_body(title: &str, blocks: &Vec<String>) -> (r: String)
    ensures
        r@ == detail_section(title@, views(blocks@)),
{
    proof {
        reveal_strlit(":\n");
        reveal_strlit("- (none)\n");
    }
    let mut body = concat2(title, ":\n");
    if blocks.len() == 0 {
        body.append("- (none)\n");
    } else {
        body.append(join(blocks, "\n").as_str());
    }
    trim_trailing_newline(body)
}

/// Every field of the services and actions in scope.
pub fn render_list_detail(config: &ProjectConfig, scope: ListScope) -> (r: String)
    ensures
        r@ == detail_listing(*config, scope),
{
    proof {
        reveal_strlit("services");
        reveal_strlit("actions");
    }
    let mut sections: Vec<String> = Vec::new();
    if scope == ListScope::All || scope == ListScope::Services {
        let ghost ps = config.services.pairs();
        let mut blocks: Vec<String> = Vec::new();
        let n = config.services.len();
        let mut i: usize = 0;
        while i < n
            invariant
                n == ps.len(),
                ps == config.services.pairs(),
                i <= n,
                views(blocks@) == service_blocks(ps).take(i as int),
            decreases n - i,
        {
            let lines = service_detail(
                config.services.name_at(i).as_str(),
                config.services.value_at(i),
            );
            let b = lines_block(&lines);
            push_line(&mut blocks, b);
            proof {
                assert(service_blocks(ps).take(i + 1) =~= service_blocks(ps).take(i as int).push(
                    b@,
                ));
            }
            i = i + 1;
        }
        proof {
            assert(service_blocks(ps).take(n as int) =~= service_blocks(ps));
        }
        push_line(&mut sections, detail_body("services", &blocks));
    }
    if scope == ListScope::All || scope == ListScope::Actions {
        let ghost ps = config.actions.pairs();
        let mut blocks: Vec<String> = Vec::new();
        let n = config.actions.len();
        let mut i: usize = 0;
        while i < n
            invariant
                n == ps.len(),
                ps == config.actions.pairs(),
                i <= n,
                views(blocks@) == action_blocks(ps).take(i as int),
            decreases n - i,
        {
            let lines = action_detail(config.actions.name_at(i).as_str(), config.actions.value_at(i));
            let b = lines_block(&lines);
            push_line(&mut blocks, b);
            proof {
                assert(action_blocks(ps).take(i + 1) =~= action_blocks(ps).take(i as int).push(
                    b@,
                ));
            }
            i = i + 1;
        }
        proof {
            assert(action_blocks(ps).take(n as int) =~= action_blocks(ps));
        }
        push_line(&mut sections, detail_body("actions", &blocks));
    }
    proof {
        assert(views(sections@) =~= (if shows_services(scope) {
            seq![detail_section("services"@, service_blocks(config.services.pairs()))]
        } else {
            Seq::empty()
        }) + (if shows_actions(scope) {
            seq![detail_section("actions"@, action_blocks(config.actions.pairs()))]
        } else {
            Seq::empty()
        }));
    }
    join(&sections, "\n\n")
}

} // verus!

verus! {

/// A dependency as labelled in the graph: marked when it names a disabled
/// service.
pub open spec fn dep_label(cfg: ProjectConfig, d: Seq<char>) -> Seq<char> {
    match lookup(cfg.services.pairs(), d) {
        Some(s) => name_item(d, s.disabled == Some(true)),
        None => d,
    }
}

/// An action as labelled in the graph: marked when it is disabled.
pub open spec fn action_label(cfg: ProjectConfig, a: Seq<char>) -> Seq<char> {
    match lookup(cfg.actions.pairs(), a) {
        Some(x) => name_item(a, x.disabled == Some(true)),
        None => a,
    }
}

/// The dependency edges of the first `k` services.
pub open spec fn dep_lines_upto(cfg: ProjectConfig, k: int) -> Seq<Seq<char>>
    decreases k,
{
    let ps = cfg.services.pairs();
    if k <= 0 || k > ps.len() {
        Seq::empty()
    } else {
        let label = name_item(ps[k - 1].0, ps[k - 1].1.disabled == Some(true));
        dep_lines_upto(cfg, k - 1) + views(ps[k - 1].1.depends_on@).map_values(
            |d: Seq<char>|
                "- service: "@ + label + " --depends_on--> service: "@ + dep_label(cfg, d),
        )
    }
}

/// The hook-reference edges of the first `k` services.
pub open spec fn hook_lines_upto(cfg: ProjectConfig, k: int) -> Seq<Seq<char>>
    decreases k,
{
    let ps = cfg.services.pairs();
    if k <= 0 || k > ps.len() {
        Seq::empty()
    } else {
        let label = name_item(ps[k - 1].0, ps[k - 1].1.disabled == Some(true));
        hook_lines_upto(cfg, k - 1) + hook_references(ps[k - 1].1.hooks).map_values(
            |r: (HookName, Seq<char>)|
                "- service: "@ + label + " --hooks."@ + hook_text(r.0) + "--> action: "@
                    + action_label(cfg, r.1),
        )
    }
}

/// Some hook of one of the first `k` services names action `a`.
pub open spec fn referenced_upto(cfg: ProjectConfig, a: Seq<char>, k: int) -> bool {
    exists|i: int, j: int|
        0 <= i < k && 0 <= j < hook_references(cfg.services.pairs()[i].1.hooks).len()
            && #[trigger] hook_references(cfg.services.pairs()[i].1.hooks)[j].1 == a
}

/// The actions among the first `k` that no hook names.
pub open spec fn standalone_upto(cfg: ProjectConfig, k: int) -> Seq<Seq<char>>
    decreases k,
{
    let aps = cfg.actions.pairs();
    if k <= 0 || k > aps.len() {
        Seq::empty()
    } else {
        standalone_upto(cfg, k - 1) + if referenced_upto(
            cfg,
            aps[k - 1].0,
            cfg.services.pairs().len() as int,
        ) {
            Seq::empty()
        } else {
            seq![name_item(aps[k - 1].0, aps[k - 1].1.disabled == Some(true))]
        }
    }
}

/// The graph listing: dependency edges, hook-reference edges, and the
/// actions that no hook names.
pub open spec fn dag_listing(cfg: ProjectConfig) -> Seq<char> {
    let n = cfg.services.pairs().len() as int;
    let standalone = standalone_upto(cfg, cfg.actions.pairs().len() as int);
    join_spec(
        seq![
            plain_section("service dependencies"@, dep_lines_upto(cfg, n)),
            plain_section("hook references"@, hook_lines_upto(cfg, n)),
        ] + if standalone.len() == 0 {
            Seq::empty()
        } else {
            seq![name_section("standalone actions"@, standalone)]
        },
        "\n\n"@,
    )
}

fn format_dep_label(config: &ProjectConfig, d: &str) -> (r: String)
    ensures
        r@ == dep_label(*config, d@),
{
    match config.services.get(d) {
        Some(s) => format_name_item(d, s.is_disabled()),
        None => d.to_owned(),
    }
}

fn format_action_label(config: &ProjectConfig, a: &str) -> (r: String)
    ensures
        r@ == action_label(*config, a@),
{
    match config.actions.get(a) {
        Some(x) => format_name_item(a, x.is_disabled()),
        None => a.to_owned(),
    }
}

/// The dependencies between services, the actions their hooks name, and
/// the actions that no hook names.
pub fn render_list_dag(config: &ProjectConfig) -> (r: String)
    ensures
        r@ == dag_listing(*config),
{
    proof {
        reveal_strlit("- service: ");
        reveal_strlit(" --depends_on--> service: ");
        reveal_strlit(" --hooks.");
        reveal_strlit("--> action: ");
        reveal_strlit("service dependencies");
        reveal_strlit("hook references");
        reveal_strlit("standalone actions");
    }
    let ghost ps = config.services.pairs();
    let mut dependency_lines: Vec<String> = Vec::new();
    let mut hook_lines: Vec<String> = Vec::new();
    let mut referenced: NameMap<()> = NameMap::new();
    let n = config.services.len();
    let mut i: usize = 0;
    while i < n
        invariant
            n == ps.len(),
            ps == config.services.pairs(),
            i <= n,
            views(dependency_lines@) == dep_lines_upto(*config, i as int),
            views(hook_lines@) == hook_lines_upto(*config, i as int),
            forall|a: Seq<char>| #[trigger]
                lookup(referenced.pairs(), a) is Some <==> referenced_upto(*config, a, i as int),
        decreases n - i,
    {
        let name = config.services.name_at(i);
        let service = config.services.value_at(i);
        let label = format_name_item(name.as_str(), service.is_disabled());
        let ghost dep_head = views(dependency_lines@);
        let ghost f = |d: Seq<char>|
            "- service: "@ + label@ + " --depends_on--> service: "@ + dep_label(*config, d);
        let m = service.depends_on.len();
        let mut j: usize = 0;
        while j < m
            invariant
                m == service.depends_on@.len(),
                forall|d: Seq<char>| #[trigger]
                    f(d) == "- service: "@ + label@ + " --depends_on--> service: "@ + dep_label(
                        *config,
                        d,
                    ),
                j <= m,
                views(dependency_lines@) == dep_head + views(service.depends_on@).map_values(f).take(
                    j as int,
                ),
            decreases m - j,
        {
            let mut line = concat2("- service: ", label.as_str());
            line.append(" --depends_on--> service: ");
            line.append(format_dep_label(config, service.depends_on[j].as_str()).as_str());
            push_line(&mut dependency_lines, line);
            proof {
                assert(line@ =~= f(service.depends_on@[j as int]@));
                assert(views(service.depends_on@).map_values(f).take(j + 1) =~= views(
                    service.depends_on@,
                ).map_values(f).take(j as int).push(line@));
            }
            j = j + 1;
        }
        proof {
            assert(views(service.depends_on@).map_values(f).take(m as int) =~= views(
                service.depends_on@,
            ).map_values(f));
            assert(views(dependency_lines@) =~= dep_lines_upto(*config, i + 1));
        }
        let refs = service.hooks.references();
        let ghost rv = refs@.map_values(|e: (HookName, String)| (e.0, e.1@));
        let ghost hook_head = views(hook_lines@);
        let ghost refs_before = referenced.pairs();
        let ghost g = |r: (HookName, Seq<char>)|
            "- service: "@ + label@ + " --hooks."@ + hook_text(r.0) + "--> action: "@
                + action_label(*config, r.1);
        let k = refs.len();
        let mut j: usize = 0;
        while j < k
            invariant
                k == refs@.len(),
                rv == refs@.map_values(|e: (HookName, String)| (e.0, e.1@)),
                forall|r: (HookName, Seq<char>)| #[trigger]
                    g(r) == "- service: "@ + label@ + " --hooks."@ + hook_text(r.0)
                        + "--> action: "@ + action_label(*config, r.1),
                j <= k,
                views(hook_lines@) == hook_head + rv.map_values(g).take(j as int),
                forall|a: Seq<char>| #[trigger]
                    lookup(referenced.pairs(), a) is Some <==> (lookup(refs_before, a) is Some
                        || exists|q: int| 0 <= q < j && #[trigger] rv[q].1 == a),
            decreases k - j,
        {
            let (hook, action_name) = &refs[j];
            let mut line = concat2("- service: ", label.as_str());
            line.append(" --hooks.");
            line.append(hook.as_str());
            line.append("--> action: ");
            line.append(format_action_label(config, action_name.as_str()).as_str());
            push_line(&mut hook_lines, line);
            let ghost before = referenced.pairs();
            referenced.insert(action_name.clone(), ());
            proof {
                assert(rv[j as int] == (*hook, action_name@));
                assert(line@ =~= g(rv[j as int]));
                assert(rv.map_values(g).take(j + 1) =~= rv.map_values(g).take(j as int).push(line@));
                assert forall|a: Seq<char>| #[trigger]
                    lookup(referenced.pairs(), a) is Some <==> (lookup(refs_before, a) is Some
                        || exists|q: int| 0 <= q < j + 1 && #[trigger] rv[q].1 == a) by {
                    if a == action_name@ {
                        assert(rv[j as int].1 == a);
                    } else {
                        assert(lookup(referenced.pairs(), a) == lookup(before, a));
                        if exists|q: int| 0 <= q < j + 1 && #[trigger] rv[q].1 == a {
                            let q = choose|q: int| 0 <= q < j + 1 && #[trigger] rv[q].1 == a;
                            assert(q < j);
                        }
                    }
                }
            }
            j = j + 1;
        }
        proof {
            assert(rv == hook_references(service.hooks));
            assert(rv.map_values(g).take(k as int) =~= rv.map_values(g));
            assert(views(hook_lines@) =~= hook_lines_upto(*config, i + 1));
            assert forall|a: Seq<char>| #[trigger]
                lookup(referenced.pairs(), a) is Some <==> referenced_upto(*config, a, i + 1) by {
                if referenced_upto(*config, a, i + 1) {
                    let (x, y) = choose|x: int, y: int|
                        0 <= x < i + 1 && 0 <= y < hook_references(ps[x].1.hooks).len()
                            && #[trigger] hook_references(ps[x].1.hooks)[y].1 == a;
                    if x == i {
                        assert(rv[y].1 == a);
                    } else {
                        assert(referenced_upto(*config, a, i as int));
                    }
                }
                if lookup(referenced.pairs(), a) is Some {
                    if lookup(refs_before, a) is Some {
                        assert(referenced_upto(*config, a, i as int));
                        let (x, y) = choose|x: int, y: int|
                            0 <= x < i && 0 <= y < hook_references(ps[x].1.hooks).len()
                                && #[trigger] hook_references(ps[x].1.hooks)[y].1 == a;
                        assert(hook_references(ps[x].1.hooks)[y].1 == a);
                    } else {
                        let q = choose|q: int| 0 <= q < k && #[trigger] rv[q].1 == a;
                        assert(hook_references(ps[i as int].1.hooks)[q].1 == a);
                    }
                }
            }
        }
        i = i + 1;
    }
    let ghost aps = config.actions.pairs();
    let mut standalone: Vec<String> = Vec::new();
    let na = config.actions.len();
    let mut a: usize = 0;
    while a < na
        invariant
            na == aps.len(),
            aps == config.actions.pairs(),
            n == ps.len(),
            ps == config.services.pairs(),
            a <= na,
            forall|x: Seq<char>| #[trigger]
                lookup(referenced.pairs(), x) is Some <==> referenced_upto(*config, x, n as int),
            views(standalone@) == standalone_upto(*config, a as int),
        decreases na - a,
    {
        let name = config.actions.name_at(a);
        let ghost prev = views(standalone@);
        let is_referenced = referenced.contains_key(name.as_str());
        proof {
            assert(name@ == aps[a as int].0);
            assert(is_referenced == (lookup(referenced.pairs(), name@) is Some));
            assert(is_referenced == referenced_upto(*config, aps[a as int].0, n as int));
        }
        if !is_referenced {
            let item = format_name_item(name.as_str(), config.actions.value_at(a).is_disabled());
            push_line(&mut standalone, item);
            proof {
                assert(views(standalone@) =~= prev + seq![
                    name_item(aps[a as int].0, aps[a as int].1.disabled == Some(true)),
                ]);
            }
        } else {
            proof {
                assert(views(standalone@) =~= prev + Seq::<Seq<char>>::empty());
            }
        }
        proof {
            assert(views(standalone@) =~= standalone_upto(*config, a + 1));
        }
        a = a + 1;
    }
    let mut sections: Vec<String> = Vec::new();
    push_line(&mut sections, render_plain_section("service dependencies", &dependency_lines));
    push_line(&mut sections, render_plain_section("hook references", &hook_lines));
    if standalone.len() > 0 {
        push_line(&mut sections, render_name_section("standalone actions", &standalone));
    }
    proof {
        let standalone_s = standalone_upto(*config, aps.len() as int);
        assert(views(sections@) =~= seq![
            plain_section("service dependencies"@, dep_lines_upto(*config, n as int)),
            plain_section("hook references"@, hook_lines_upto(*config, n as int)),
        ] + if standalone_s.len() == 0 {
            Seq::empty()
        } else {
            seq![name_section("standalone actions"@, standalone_s)]
        });
    }
    join(&sections, "\n\n")
}

/// The listing that `request` asks for.
pub fn render_list_output(config: &ProjectConfig, request: &ListRequest) -> (r: String)
    ensures
        r@ == match request.mode {
            ListMode::Names => names_listing(*config, request.scope),
            ListMode::Detail => detail_listing(*config, request.scope),
            ListMode::Dag => dag_listing(*config),
        },
{
    match request.mode {
        ListMode::Names => render_list_names(config, request.scope),
        ListMode::Detail => render_list_detail(config, request.scope),
        ListMode::Dag => render_list_dag(config),
    }
}

} // verus!
