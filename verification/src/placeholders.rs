//! `${name}` placeholders in action arguments: scanning, checking and
//! rendering them against a render context.

use vstd::prelude::*;

use crate::config::{known_placeholder, ActionRenderContext, PreparedActionExecution};
use crate::error::{AppError, AppResult, ExitCode};
use crate::name_map::{
    insert_spec, is_first, lemma_insert_after_all, lemma_insert_lookup, lookup, lookup_index, names_of, sorted_names,
    NameMap,
};
use crate::text::{concat3, dec_digits, decimal, views};

verus! {

/// The first `}` at or after `j`, or the length when there is none.
pub open spec fn close_index(s: Seq<char>, j: int) -> int
    decreases s.len() - j,
{
    if j >= s.len() {
        s.len() as int
    } else if s[j] == '}' {
        j
    } else {
        close_index(s, j + 1)
    }
}

pub proof fn lemma_close_index_bounds(s: Seq<char>, j: int)
    requires
        0 <= j,
    ensures
        j <= close_index(s, j) || (j > s.len() && close_index(s, j) == s.len()),
        close_index(s, j) <= s.len() || j > s.len(),
        close_index(s, j) < s.len() ==> s[close_index(s, j)] == '}',
        forall|k: int| j <= k < close_index(s, j) ==> s[k] != '}',
    decreases s.len() - j,
{
    if j < s.len() && s[j] != '}' {
        lemma_close_index_bounds(s, j + 1);
    }
}

/// A placeholder opens at `i`.
pub open spec fn opens_at(s: Seq<char>, i: int) -> bool {
    0 <= i && i + 1 < s.len() && s[i] == '$' && s[i + 1] == '{'
}

/// Characters allowed in a placeholder name.
pub open spec fn placeholder_char(c: char) -> bool {
    ('a' <= c && c <= 'z') || ('0' <= c && c <= '9') || c == '_'
}

/// The names of the placeholders in `s` from position `i` on, or the first
/// problem found.
pub open spec fn scan_from(s: Seq<char>, i: int) -> Result<Seq<Seq<char>>, Seq<char>>
    decreases s.len() - i,
{
    if i < 0 || i >= s.len() {
        Ok(Seq::empty())
    } else if opens_at(s, i) {
        let e = close_index(s, i + 2);
        if e >= s.len() {
            Err("unterminated placeholder in `"@ + s + "`"@)
        } else {
            let name = s.subrange(i + 2, e);
            if name.len() == 0 {
                Err("empty placeholder in `"@ + s + "`"@)
            } else if !(forall|k: int| 0 <= k < name.len() ==> placeholder_char(#[trigger] name[k])) {
                Err("invalid placeholder `${"@ + name + "}` in `"@ + s + "`"@)
            } else {
                proof {
                    lemma_close_index_bounds(s, i + 2);
                }
                match scan_from(s, e + 1) {
                    Ok(rest) => Ok(seq![name] + rest),
                    Err(m) => Err(m),
                }
            }
        }
    } else {
        scan_from(s, i + 1)
    }
}

/// The placeholder names that `s` refers to, in order of appearance.
pub open spec fn scan_spec(s: Seq<char>) -> Result<Seq<Seq<char>>, Seq<char>> {
    scan_from(s, 0)
}

/// `prefix` put before a successful scan.
pub open spec fn prefixed(
    prefix: Seq<Seq<char>>,
    r: Result<Seq<Seq<char>>, Seq<char>>,
) -> Result<Seq<Seq<char>>, Seq<char>> {
    match r {
        Ok(rest) => Ok(prefix + rest),
        Err(m) => Err(m),
    }
}

fn all_placeholder_chars(s: &str, from: usize, to: usize) -> (r: bool)
    requires
        from <= to <= s@.len(),
    ensures
        r == forall|k: int| 0 <= k < to - from ==> placeholder_char(#[trigger] s@.subrange(
            from as int,
            to as int,
        )[k]),
{
    let mut i = from;
    while i < to
        invariant
            from <= i <= to <= s@.len(),
            forall|k: int| from <= k < i ==> placeholder_char(#[trigger] s@[k]),
        decreases to - i,
    {
        let c = s.get_char(i);
        if !(('a' <= c && c <= 'z') || ('0' <= c && c <= '9') || c == '_') {
            assert(s@.subrange(from as int, to as int)[i - from] == c);
            return false;
        }
        i = i + 1;
    }
    assert forall|k: int| 0 <= k < to - from implies placeholder_char(
        #[trigger] s@.subrange(from as int, to as int)[k],
    ) by {
        assert(s@.subrange(from as int, to as int)[k] == s@[from + k]);
    }
    true
}

/// The first `}` at or after `j`.
fn find_close(s: &str, j: usize) -> (r: usize)
    requires
        j <= s@.len(),
    ensures
        r == close_index(s@, j as int),
{
    let n = s.unicode_len();
    let mut end = j;
    while end < n && s.get_char(end) != '}'
        invariant
            n == s@.len(),
            j <= end <= n,
            close_index(s@, j as int) == close_index(s@, end as int),
        decreases n - end,
    {
        end = end + 1;
    }
    end
}

/// The names of the placeholders in `input`, in order, or a message naming
/// the first malformed one.
pub fn scan_placeholders(input: &str) -> (r: Result<Vec<String>, String>)
    ensures
        match scan_spec(input@) {
            Ok(names) => r matches Ok(v) && views(v@) == names,
            Err(m) => r matches Err(e) && e@ == m,
        },
{
    let n = input.unicode_len();
    let ghost s = input@;
    let mut index: usize = 0;
    let mut placeholders: Vec<String> = Vec::new();
    while index < n
        invariant
            n == s.len(),
            s == input@,
            index <= n,
            scan_spec(s) == prefixed(views(placeholders@), scan_from(s, index as int)),
        decreases n - index,
    {
        if index + 1 < n && input.get_char(index) == '$' && input.get_char(index + 1) == '{' {
            let end = find_close(input, index + 2);
            proof {
                lemma_close_index_bounds(s, index + 2);
            }
            if end >= n {
                return Err(concat3("unterminated placeholder in `", input, "`"));
            }
            if end == index + 2 {
                return Err(concat3("empty placeholder in `", input, "`"));
            }
            let name = input.substring_char(index + 2, end).to_owned();
            if !all_placeholder_chars(input, index + 2, end) {
                let mut message = concat3("invalid placeholder `${", name.as_str(), "}` in `");
                message.append(input);
                message.append("`");
                return Err(message);
            }
            let ghost before = views(placeholders@);
            placeholders.push(name);
            proof {
                assert(views(placeholders@) =~= before + seq![s.subrange(index + 2, end as int)]);
                match scan_from(s, end + 1) {
                    Ok(rest) => {
                        assert(before + (seq![s.subrange(index + 2, end as int)] + rest)
                            =~= views(placeholders@) + rest);
                    },
                    Err(_) => {},
                }
            }
            index = end + 1;
        } else {
            index = index + 1;
        }
    }
    proof {
        assert(views(placeholders@) + Seq::<Seq<char>>::empty() =~= views(placeholders@));
    }
    Ok(placeholders)
}

/// The sorted set of placeholder names after adding `names` to `acc`, or the
/// message for the first unknown name.
pub open spec fn add_names(
    acc: Seq<(Seq<char>, ())>,
    names: Seq<Seq<char>>,
    index: nat,
) -> Result<Seq<(Seq<char>, ())>, Seq<char>>
    decreases names.len(),
{
    if names.len() == 0 {
        Ok(acc)
    } else {
        match add_names(acc, names.drop_last(), index) {
            Err(m) => Err(m),
            Ok(ns) => if known_placeholder(names.last()) {
                Ok(insert_spec(ns, names.last(), ()))
            } else {
                Err(
                    "contains unknown placeholder `${"@ + names.last() + "}` at args["@
                        + dec_digits(index) + "]"@,
                )
            },
        }
    }
}

/// The placeholder names used across `args`, or the first problem.
pub open spec fn names_spec(args: Seq<Seq<char>>) -> Result<Seq<(Seq<char>, ())>, Seq<char>>
    decreases args.len(),
{
    if args.len() == 0 {
        Ok(Seq::empty())
    } else {
        match names_spec(args.drop_last()) {
            Err(m) => Err(m),
            Ok(ns) => match scan_spec(args.last()) {
                Err(e) => Err(
                    "contains invalid placeholder at args["@ + dec_digits((args.len() - 1) as nat)
                        + "]: "@ + e,
                ),
                Ok(found) => add_names(ns, found, (args.len() - 1) as nat),
            },
        }
    }
}

pub proof fn lemma_add_names_err(acc: Seq<(Seq<char>, ())>, names: Seq<Seq<char>>, index: nat, k: int)
    requires
        0 <= k <= names.len(),
        add_names(acc, names.take(k), index) is Err,
    ensures
        add_names(acc, names, index) == add_names(acc, names.take(k), index),
    decreases names.len() - k,
{
    if k < names.len() {
        assert(names.drop_last().take(k) =~= names.take(k));
        lemma_add_names_err(acc, names.drop_last(), index, k);
    } else {
        assert(names.take(k) =~= names);
    }
}

pub proof fn lemma_names_spec_err(args: Seq<Seq<char>>, k: int)
    requires
        0 <= k <= args.len(),
        names_spec(args.take(k)) is Err,
    ensures
        names_spec(args) == names_spec(args.take(k)),
    decreases args.len() - k,
{
    if k < args.len() {
        assert(args.drop_last().take(k) =~= args.take(k));
        lemma_names_spec_err(args.drop_last(), k);
    } else {
        assert(args.take(k) =~= args);
    }
}

/// The set of placeholder names that `args` use, all of them known.
pub fn placeholder_names(args: &Vec<String>) -> (r: Result<NameMap<()>, String>)
    ensures
        match names_spec(views(args@)) {
            Ok(ns) => r matches Ok(m) && m.pairs() == ns,
            Err(msg) => r matches Err(e) && e@ == msg,
        },
{
    let mut names: NameMap<()> = NameMap::new();
    let n = args.len();
    let mut index: usize = 0;
    while index < n
        invariant
            n == args@.len(),
            index <= n,
            names_spec(views(args@).take(index as int)) == Ok::<
                Seq<(Seq<char>, ())>,
                Seq<char>,
            >(names.pairs()),
        decreases n - index,
    {
        proof {
            assert(views(args@).take(index + 1).drop_last() =~= views(args@).take(index as int));
            assert(views(args@).take(index + 1).last() == args@[index as int]@);
        }
        let scanned = scan_placeholders(args[index].as_str());
        let found = match scanned {
            Err(error) => {
                let mut message = "contains invalid placeholder at args[".to_owned();
                let digits = decimal(index as u64);
                message.append(digits.as_str());
                message.append("]: ");
                message.append(error.as_str());
                proof {
                    lemma_names_spec_err(views(args@), index + 1);
                }
                return Err(message);
            },
            Ok(found) => found,
        };
        let ghost base = names.pairs();
        let m = found.len();
        let mut j: usize = 0;
        while j < m
            invariant
                m == found@.len(),
                n == args@.len(),
                index < n,
                names_spec(views(args@).take(index as int)) == Ok::<Seq<(Seq<char>, ())>, Seq<char>>(
                    base,
                ),
                scan_spec(args@[index as int]@) == Ok::<Seq<Seq<char>>, Seq<char>>(views(found@)),
                views(args@).take(index + 1).drop_last() == views(args@).take(index as int),
                views(args@).take(index + 1).last() == args@[index as int]@,
                j <= m,
                add_names(base, views(found@).take(j as int), index as nat) == Ok::<
                    Seq<(Seq<char>, ())>,
                    Seq<char>,
                >(names.pairs()),
            decreases m - j,
        {
            proof {
                assert(views(found@).take(j + 1).drop_last() =~= views(found@).take(j as int));
                assert(views(found@).take(j + 1).last() == found@[j as int]@);
            }
            if !crate::config::is_known_placeholder(found[j].as_str()) {
                let mut message = concat3("contains unknown placeholder `${", found[j].as_str(), "}` at args[");
                let digits = decimal(index as u64);
                message.append(digits.as_str());
                message.append("]");
                proof {
                    lemma_add_names_err(base, views(found@), index as nat, j + 1);
                    lemma_names_spec_err(views(args@), index + 1);
                }
                return Err(message);
            }
            names.insert(found[j].clone(), ());
            j = j + 1;
        }
        proof {
            assert(views(found@).take(m as int) =~= views(found@));
        }
        index = index + 1;
    }
    proof {
        assert(views(args@).take(n as int) =~= views(args@));
    }
    Ok(names)
}

/// `Ok` when every placeholder in `args` is well formed and known.
pub fn validate_placeholders(args: &Vec<String>) -> (r: Result<(), String>)
    ensures
        match names_spec(views(args@)) {
            Ok(_) => r is Ok,
            Err(msg) => r matches Err(e) && e@ == msg,
        },
{
    match placeholder_names(args) {
        Ok(_) => Ok(()),
        Err(e) => Err(e),
    }
}

/// The placeholder names used across `args`, as a configuration error when
/// one is malformed or unknown.
pub fn referenced_placeholder_names(args: &Vec<String>) -> (r: AppResult<NameMap<()>>)
    ensures
        match names_spec(views(args@)) {
            Ok(ns) => r matches Ok(m) && m.pairs() == ns,
            Err(msg) => r matches Err(e) && e.exit_code == ExitCode::ConfigInvalid && e.message@
                == msg,
        },
{
    match placeholder_names(args) {
        Ok(names) => Ok(names),
        Err(e) => Err(AppError::config_invalid(e)),
    }
}

/// The placeholder values of a context as plain text: project root,
/// configuration path, service name, action name, hook name, service
/// working directory, service executable, and the optional service pid,
/// stop reason, exit code and exit status.
pub type ContextView = (
    Seq<char>,
    Seq<char>,
    Seq<char>,
    Seq<char>,
    Seq<char>,
    Seq<char>,
    Seq<char>,
    Option<Seq<char>>,
    Option<Seq<char>>,
    Option<Seq<char>>,
    Option<Seq<char>>,
);

/// An optional string by view.
pub open spec fn opt_text_view(o: Option<String>) -> Option<Seq<char>> {
    match o {
        Some(v) => Some(v@),
        None => None,
    }
}

/// The placeholder values of `ctx`.
pub open spec fn context_view(ctx: ActionRenderContext) -> ContextView {
    (
        ctx.project_root@,
        ctx.config_path@,
        ctx.service_name@,
        ctx.action_name@,
        ctx.hook_name@,
        ctx.service_cwd@,
        ctx.service_executable@,
        opt_text_view(ctx.service_pid),
        opt_text_view(ctx.stop_reason),
        opt_text_view(ctx.exit_code),
        opt_text_view(ctx.exit_status),
    )
}

/// The value a placeholder takes in `ctx`, if it has one.
pub open spec fn placeholder_value(ctx: ContextView, name: Seq<char>) -> Option<Seq<char>> {
    if name == "project_root"@ {
        Some(ctx.0)
    } else if name == "config_path"@ {
        Some(ctx.1)
    } else if name == "service_name"@ {
        Some(ctx.2)
    } else if name == "action_name"@ {
        Some(ctx.3)
    } else if name == "hook_name"@ {
        Some(ctx.4)
    } else if name == "service_cwd"@ {
        Some(ctx.5)
    } else if name == "service_executable"@ {
        Some(ctx.6)
    } else if name == "service_pid"@ {
        ctx.7
    } else if name == "stop_reason"@ {
        ctx.8
    } else if name == "exit_code"@ {
        ctx.9
    } else if name == "exit_status"@ {
        ctx.10
    } else {
        None
    }
}

/// Each placeholder takes the value of the context field that bears its
/// name: the seven descriptive ones always, the four optional ones when the
/// context has them; an unknown name has no value.
pub proof fn lemma_placeholder_fields(ctx: ActionRenderContext, name: Seq<char>)
    ensures
        placeholder_value(context_view(ctx), "project_root"@) == Some(ctx.project_root@),
        placeholder_value(context_view(ctx), "config_path"@) == Some(ctx.config_path@),
        placeholder_value(context_view(ctx), "service_name"@) == Some(ctx.service_name@),
        placeholder_value(context_view(ctx), "action_name"@) == Some(ctx.action_name@),
        placeholder_value(context_view(ctx), "hook_name"@) == Some(ctx.hook_name@),
        placeholder_value(context_view(ctx), "service_cwd"@) == Some(ctx.service_cwd@),
        placeholder_value(context_view(ctx), "service_executable"@) == Some(
            ctx.service_executable@,
        ),
        placeholder_value(context_view(ctx), "service_pid"@) == opt_text_view(ctx.service_pid),
        placeholder_value(context_view(ctx), "stop_reason"@) == opt_text_view(ctx.stop_reason),
        placeholder_value(context_view(ctx), "exit_code"@) == opt_text_view(ctx.exit_code),
        placeholder_value(context_view(ctx), "exit_status"@) == opt_text_view(ctx.exit_status),
        !known_placeholder(name) ==> placeholder_value(context_view(ctx), name) is None,
{
    crate::config::lemma_placeholder_names_differ();
}

/// `input` with every placeholder replaced by its value in `ctx`, or the
/// first problem, from position `i` on.
pub open spec fn render_from(s: Seq<char>, i: int, ctx: ContextView) -> Result<
    Seq<char>,
    Seq<char>,
>
    decreases s.len() - i,
{
    if i < 0 || i >= s.len() {
        Ok(Seq::empty())
    } else if opens_at(s, i) {
        let e = close_index(s, i + 2);
        if e >= s.len() {
            Err("unterminated placeholder in `"@ + s + "`"@)
        } else {
            let name = s.subrange(i + 2, e);
            match placeholder_value(ctx, name) {
                None => Err("placeholder `${"@ + name + "}` is not available"@),
                Some(v) => {
                    proof {
                        lemma_close_index_bounds(s, i + 2);
                    }
                    match render_from(s, e + 1, ctx) {
                        Ok(rest) => Ok(v + rest),
                        Err(m) => Err(m),
                    }
                },
            }
        }
    } else {
        match render_from(s, i + 1, ctx) {
            Ok(rest) => Ok(seq![s[i]] + rest),
            Err(m) => Err(m),
        }
    }
}

pub open spec fn render_spec(s: Seq<char>, ctx: ContextView) -> Result<Seq<char>, Seq<char>> {
    render_from(s, 0, ctx)
}

proof fn lemma_plain_from(s: Seq<char>, i: int, ctx: ContextView)
    requires
        0 <= i <= s.len(),
        forall|k: int| 0 <= k < s.len() ==> !opens_at(s, k),
    ensures
        render_from(s, i, ctx) == Ok::<Seq<char>, Seq<char>>(s.skip(i)),
    decreases s.len() - i,
{
    if i < s.len() {
        lemma_plain_from(s, i + 1, ctx);
        assert(seq![s[i]] + s.skip(i + 1) =~= s.skip(i));
    } else {
        assert(s.skip(i) =~= Seq::<char>::empty());
    }
}

/// Text that opens no placeholder renders as itself, in every context.
pub proof fn lemma_plain_text_renders_unchanged(s: Seq<char>, ctx: ContextView)
    requires
        forall|k: int| 0 <= k < s.len() ==> !opens_at(s, k),
    ensures
        render_spec(s, ctx) == Ok::<Seq<char>, Seq<char>>(s),
{
    lemma_plain_from(s, 0, ctx);
    assert(s.skip(0) =~= s);
}

proof fn lemma_scanned_from(s: Seq<char>, i: int, ctx: ContextView)
    requires
        0 <= i,
        scan_from(s, i) is Ok,
        forall|k: int|
            0 <= k < scan_from(s, i)->Ok_0.len() ==> placeholder_value(
                ctx,
                #[trigger] scan_from(s, i)->Ok_0[k],
            ) is Some,
    ensures
        render_from(s, i, ctx) is Ok,
    decreases s.len() - i,
{
    if i < s.len() {
        if opens_at(s, i) {
            let e = close_index(s, i + 2);
            lemma_close_index_bounds(s, i + 2);
            let name = s.subrange(i + 2, e);
            let rest = scan_from(s, e + 1);
            assert(scan_from(s, i)->Ok_0 == seq![name] + rest->Ok_0);
            assert(scan_from(s, i)->Ok_0[0] == name);
            assert forall|k: int| 0 <= k < rest->Ok_0.len() implies placeholder_value(
                ctx,
                #[trigger] rest->Ok_0[k],
            ) is Some by {
                assert(scan_from(s, i)->Ok_0[k + 1] == rest->Ok_0[k]);
            }
            lemma_scanned_from(s, e + 1, ctx);
        } else {
            lemma_scanned_from(s, i + 1, ctx);
        }
    }
}

/// Text whose placeholders are well formed renders without error in a
/// context that has a value for each of them.
pub proof fn lemma_scanned_text_renders(s: Seq<char>, ctx: ContextView)
    requires
        scan_spec(s) is Ok,
        forall|k: int|
            0 <= k < scan_spec(s)->Ok_0.len() ==> placeholder_value(ctx, #[trigger] scan_spec(s)->Ok_0[k])
                is Some,
    ensures
        render_spec(s, ctx) is Ok,
{
    lemma_scanned_from(s, 0, ctx);
}

pub open spec fn text_prefixed(prefix: Seq<char>, r: Result<Seq<char>, Seq<char>>) -> Result<
    Seq<char>,
    Seq<char>,
> {
    match r {
        Ok(rest) => Ok(prefix + rest),
        Err(m) => Err(m),
    }
}

fn opt_text(o: &Option<String>) -> (r: Option<String>)
    ensures
        match *o {
            Some(v) => r matches Some(x) && x@ == v@,
            None => r is None,
        },
{
    match o {
        Some(v) => Some(v.clone()),
        None => None,
    }
}

impl ActionRenderContext {
    /// The value of placeholder `placeholder`, if the context has one.
    pub fn resolve_placeholder(&self, placeholder: &str) -> (r: Option<String>)
        ensures
            match placeholder_value(context_view(*self), placeholder@) {
                Some(v) => r matches Some(x) && x@ == v,
                None => r is None,
            },
    {
        let p = placeholder;
        if crate::text::same_text(p, "project_root") {
            Some(self.project_root.clone())
        } else if crate::text::same_text(p, "config_path") {
            Some(self.config_path.clone())
        } else if crate::text::same_text(p, "service_name") {
            Some(self.service_name.clone())
        } else if crate::text::same_text(p, "action_name") {
            Some(self.action_name.clone())
        } else if crate::text::same_text(p, "hook_name") {
            Some(self.hook_name.clone())
        } else if crate::text::same_text(p, "service_cwd") {
            Some(self.service_cwd.clone())
        } else if crate::text::same_text(p, "service_executable") {
            Some(self.service_executable.clone())
        } else if crate::text::same_text(p, "service_pid") {
            opt_text(&self.service_pid)
        } else if crate::text::same_text(p, "stop_reason") {
            opt_text(&self.stop_reason)
        } else if crate::text::same_text(p, "exit_code") {
            opt_text(&self.exit_code)
        } else if crate::text::same_text(p, "exit_status") {
            opt_text(&self.exit_status)
        } else {
            None
        }
    }
}

/// `input` with each placeholder replaced by its value in `context`.
pub fn render_placeholders(input: &str, context: &ActionRenderContext) -> (r: AppResult<String>)
    ensures
        match render_spec(input@, context_view(*context)) {
            Ok(text) => r matches Ok(v) && v@ == text,
            Err(m) => r matches Err(e) && e.exit_code == ExitCode::ConfigInvalid && e.message@ == m,
        },
{
    let n = input.unicode_len();
    let ghost s = input@;
    let mut index: usize = 0;
    let mut run_start: usize = 0;
    let mut rendered = String::new();
    while index < n
        invariant
            n == s.len(),
            s == input@,
            run_start <= index <= n,
            render_spec(s, context_view(*context)) == text_prefixed(
                rendered@ + s.subrange(run_start as int, index as int),
                render_from(s, index as int, context_view(*context)),
            ),
        decreases n - index,
    {
        if index + 1 < n && input.get_char(index) == '$' && input.get_char(index + 1) == '{' {
            let end = find_close(input, index + 2);
            proof {
                lemma_close_index_bounds(s, index + 2);
            }
            if end >= n {
                return Err(
                    AppError::config_invalid(
                        concat3("unterminated placeholder in `", input, "`"),
                    ),
                );
            }
            let name = input.substring_char(index + 2, end);
            let value = match context.resolve_placeholder(name) {
                Some(v) => v,
                None => {
                    return Err(
                        AppError::config_invalid(
                            concat3("placeholder `${", name, "}` is not available"),
                        ),
                    );
                },
            };
            let literal = input.substring_char(run_start, index);
            let ghost before = rendered@;
            rendered.append(literal);
            rendered.append(value.as_str());
            proof {
                assert(s.subrange(end + 1, end + 1) =~= Seq::<char>::empty());
                match render_from(s, end + 1, context_view(*context)) {
                    Ok(rest) => {
                        assert(before + s.subrange(run_start as int, index as int) + (value@ + rest)
                            =~= rendered@ + s.subrange(end + 1, end + 1) + rest);
                    },
                    Err(_) => {},
                }
            }
            index = end + 1;
            run_start = index;
        } else {
            proof {
                match render_from(s, index + 1, context_view(*context)) {
                    Ok(rest) => {
                        assert(rendered@ + s.subrange(run_start as int, index as int) + (seq![
                            s[index as int],
                        ] + rest) =~= rendered@ + s.subrange(run_start as int, index + 1) + rest);
                    },
                    Err(_) => {},
                }
            }
            index = index + 1;
        }
    }
    let literal = input.substring_char(run_start, n);
    rendered.append(literal);
    proof {
        assert(rendered@ + Seq::<char>::empty() =~= rendered@);
    }
    Ok(rendered)
}

/// The rendering of every argument, or the first failure.
pub open spec fn render_all(args: Seq<Seq<char>>, ctx: ContextView) -> Result<
    Seq<Seq<char>>,
    Seq<char>,
>
    decreases args.len(),
{
    if args.len() == 0 {
        Ok(Seq::empty())
    } else {
        match render_all(args.drop_last(), ctx) {
            Err(m) => Err(m),
            Ok(done) => match render_spec(args.last(), ctx) {
                Err(m) => Err(m),
                Ok(text) => Ok(done.push(text)),
            },
        }
    }
}

/// The first name of `ns` that `ctx` cannot resolve, if any.
pub open spec fn first_unresolved(ns: Seq<(Seq<char>, ())>, ctx: ContextView) -> Option<
    Seq<char>,
>
    decreases ns.len(),
{
    if ns.len() == 0 {
        None
    } else {
        match first_unresolved(ns.drop_last(), ctx) {
            Some(n) => Some(n),
            None => if placeholder_value(ctx, ns.last().0) is None {
                Some(ns.last().0)
            } else {
                None
            },
        }
    }
}

pub proof fn lemma_first_unresolved_prefix(ns: Seq<(Seq<char>, ())>, ctx: ContextView, k: int)
    requires
        0 <= k <= ns.len(),
        first_unresolved(ns.take(k), ctx) is Some,
    ensures
        first_unresolved(ns, ctx) == first_unresolved(ns.take(k), ctx),
    decreases ns.len() - k,
{
    if k < ns.len() {
        assert(ns.drop_last().take(k) =~= ns.take(k));
        lemma_first_unresolved_prefix(ns.drop_last(), ctx, k);
    } else {
        assert(ns.take(k) =~= ns);
    }
}

pub proof fn lemma_render_all_err(args: Seq<Seq<char>>, ctx: ContextView, k: int)
    requires
        0 <= k <= args.len(),
        render_all(args.take(k), ctx) is Err,
    ensures
        render_all(args, ctx) == render_all(args.take(k), ctx),
    decreases args.len() - k,
{
    if k < args.len() {
        assert(args.drop_last().take(k) =~= args.take(k));
        lemma_render_all_err(args.drop_last(), ctx, k);
    } else {
        assert(args.take(k) =~= args);
    }
}

/// The names of `ns` paired with their values in `ctx`.
pub open spec fn resolved_pairs(ns: Seq<(Seq<char>, ())>, ctx: ContextView) -> Seq<
    (Seq<char>, Seq<char>),
> {
    ns.map_values(|e: (Seq<char>, ())| (e.0, placeholder_value(ctx, e.0).unwrap()))
}

/// The outcome of preparing `args` in `ctx`: the names used, their values,
/// and the rendered arguments.
pub open spec fn prepare_outcome(args: Seq<Seq<char>>, ctx: ContextView) -> Result<
    (Seq<(Seq<char>, Seq<char>)>, Seq<Seq<char>>),
    Seq<char>,
> {
    match names_spec(args) {
        Err(m) => Err(m),
        Ok(ns) => match first_unresolved(ns, ctx) {
            Some(n) => Err("placeholder `${"@ + n + "}` is not available"@),
            None => match render_all(args, ctx) {
                Err(m) => Err(m),
                Ok(rendered) => Ok((resolved_pairs(ns, ctx), rendered)),
            },
        },
    }
}

proof fn lemma_add_names_covers(acc: Seq<(Seq<char>, ())>, names: Seq<Seq<char>>, index: nat)
    requires
        sorted_names(acc),
        add_names(acc, names, index) is Ok,
    ensures
        sorted_names(add_names(acc, names, index)->Ok_0),
        forall|x: Seq<char>| #[trigger] lookup(acc, x) is Some ==> lookup(add_names(acc, names, index)->Ok_0, x) is Some,
        forall|j: int| 0 <= j < names.len() ==> lookup(add_names(acc, names, index)->Ok_0, #[trigger] names[j]) is Some,
    decreases names.len(),
{
    if names.len() > 0 {
        let prev = names.drop_last();
        lemma_add_names_covers(acc, prev, index);
        let ns = add_names(acc, prev, index)->Ok_0;
        let res = add_names(acc, names, index)->Ok_0;
        assert(res == insert_spec(ns, names.last(), ()));
        lemma_insert_lookup(ns, names.last(), (), names.last());
        assert forall|x: Seq<char>| #[trigger] lookup(acc, x) is Some implies lookup(res, x) is Some by {
            lemma_insert_lookup(ns, names.last(), (), x);
        }
        assert forall|j: int| 0 <= j < names.len() implies lookup(res, #[trigger] names[j]) is Some by {
            lemma_insert_lookup(ns, names.last(), (), names[j]);
            if j < names.len() - 1 {
                assert(names[j] == prev[j]);
            }
        }
    }
}

proof fn lemma_names_spec_covers(args: Seq<Seq<char>>)
    requires
        names_spec(args) is Ok,
    ensures
        sorted_names(names_spec(args)->Ok_0),
        forall|i: int|
            0 <= i < args.len() ==> (#[trigger] scan_spec(args[i])) is Ok && forall|j: int|
                0 <= j < scan_spec(args[i])->Ok_0.len() ==> lookup(
                    names_spec(args)->Ok_0,
                    #[trigger] scan_spec(args[i])->Ok_0[j],
                ) is Some,
    decreases args.len(),
{
    if args.len() > 0 {
        let prev = args.drop_last();
        lemma_names_spec_covers(prev);
        let ps = names_spec(prev)->Ok_0;
        let found = scan_spec(args.last())->Ok_0;
        lemma_add_names_covers(ps, found, (args.len() - 1) as nat);
        let ns = names_spec(args)->Ok_0;
        assert forall|i: int| 0 <= i < args.len() implies (#[trigger] scan_spec(args[i])) is Ok && forall|
            j: int,
        |
            0 <= j < scan_spec(args[i])->Ok_0.len() ==> lookup(ns, #[trigger] scan_spec(args[i])->Ok_0[j])
                is Some by {
            if i < args.len() - 1 {
                assert(args[i] == prev[i]);
                assert forall|j: int| 0 <= j < scan_spec(args[i])->Ok_0.len() implies lookup(
                    ns,
                    #[trigger] scan_spec(args[i])->Ok_0[j],
                ) is Some by {
                    assert(lookup(ps, scan_spec(prev[i])->Ok_0[j]) is Some);
                }
            }
        }
    } else {
        assert(sorted_names(Seq::<(Seq<char>, ())>::empty()));
    }
}

proof fn lemma_resolved_all(ns: Seq<(Seq<char>, ())>, ctx: ContextView)
    requires
        first_unresolved(ns, ctx) is None,
    ensures
        forall|i: int| 0 <= i < ns.len() ==> placeholder_value(ctx, (#[trigger] ns[i]).0) is Some,
    decreases ns.len(),
{
    if ns.len() > 0 {
        lemma_resolved_all(ns.drop_last(), ctx);
        assert forall|i: int| 0 <= i < ns.len() implies placeholder_value(ctx, (#[trigger] ns[i]).0) is Some by {
            if i < ns.len() - 1 {
                assert(ns[i] == ns.drop_last()[i]);
            }
        }
    }
}

proof fn lemma_render_all_ok(args: Seq<Seq<char>>, ctx: ContextView)
    requires
        forall|i: int| 0 <= i < args.len() ==> (#[trigger] render_spec(args[i], ctx)) is Ok,
    ensures
        render_all(args, ctx) is Ok,
        render_all(args, ctx)->Ok_0.len() == args.len(),
    decreases args.len(),
{
    if args.len() > 0 {
        assert forall|i: int| 0 <= i < args.len() - 1 implies (#[trigger] render_spec(
            args.drop_last()[i],
            ctx,
        )) is Ok by {
            assert(args.drop_last()[i] == args[i]);
        }
        lemma_render_all_ok(args.drop_last(), ctx);
        assert(render_spec(args[args.len() - 1], ctx) is Ok);
    }
}

proof fn lemma_unresolved_exists(ns: Seq<(Seq<char>, ())>, ctx: ContextView)
    ensures
        first_unresolved(ns, ctx) is Some <==> exists|k: int|
            0 <= k < ns.len() && placeholder_value(ctx, (#[trigger] ns[k]).0) is None,
    decreases ns.len(),
{
    if ns.len() > 0 {
        lemma_unresolved_exists(ns.drop_last(), ctx);
        if exists|k: int| 0 <= k < ns.drop_last().len() && placeholder_value(ctx, (#[trigger] ns.drop_last()[k]).0) is None {
            let k = choose|k: int| 0 <= k < ns.drop_last().len() && placeholder_value(ctx, (#[trigger] ns.drop_last()[k]).0) is None;
            assert(ns[k] == ns.drop_last()[k]);
        }
        if exists|k: int| 0 <= k < ns.len() && placeholder_value(ctx, (#[trigger] ns[k]).0) is None {
            let k = choose|k: int| 0 <= k < ns.len() && placeholder_value(ctx, (#[trigger] ns[k]).0) is None;
            if k < ns.len() - 1 {
                assert(ns.drop_last()[k] == ns[k]);
            }
        }
    }
}

/// Preparing `args` in `ctx` fails exactly when a reference in them is
/// malformed or unknown, or a referenced name has no value in `ctx`.  When
/// it succeeds, the resolved names are exactly the referenced ones, each
/// with its value in `ctx`, and every argument is rendered.
pub proof fn lemma_prepare_law(args: Seq<Seq<char>>, ctx: ContextView)
    ensures
        prepare_outcome(args, ctx) is Err <==> (names_spec(args) is Err || exists|k: int|
            0 <= k < names_spec(args)->Ok_0.len() && placeholder_value(
                ctx,
                (#[trigger] names_spec(args)->Ok_0[k]).0,
            ) is None),
        prepare_outcome(args, ctx) matches Ok((params, rendered)) ==> {
            &&& names_of(params) == names_of(names_spec(args)->Ok_0)
            &&& forall|k: int|
                0 <= k < params.len() ==> placeholder_value(ctx, (#[trigger] params[k]).0) == Some(
                    params[k].1,
                )
            &&& rendered.len() == args.len()
        },
{
    if names_spec(args) is Ok {
        let ns = names_spec(args)->Ok_0;
        lemma_unresolved_exists(ns, ctx);
        if first_unresolved(ns, ctx) is None {
            lemma_names_spec_covers(args);
            lemma_resolved_all(ns, ctx);
            assert forall|i: int| 0 <= i < args.len() implies (#[trigger] render_spec(args[i], ctx)) is Ok by {
                let found = scan_spec(args[i])->Ok_0;
                assert forall|j: int| 0 <= j < found.len() implies placeholder_value(ctx, #[trigger] found[j])
                    is Some by {
                    assert(lookup(ns, found[j]) is Some);
                    let q = lookup_index(ns, found[j])->Some_0;
                    assert(is_first(ns, found[j], q));
                    assert(ns[q].0 == found[j]);
                }
                lemma_scanned_text_renders(args[i], ctx);
            }
            lemma_render_all_ok(args, ctx);
            let params = resolved_pairs(ns, ctx);
            assert(names_of(params) =~= names_of(ns));
            assert forall|k: int| 0 <= k < params.len() implies placeholder_value(
                ctx,
                (#[trigger] params[k]).0,
            ) == Some(params[k].1) by {
                assert(params[k].0 == ns[k].0);
            }
        }
    }
}

/// The pairs of a string-valued map with their values taken by view.
pub open spec fn text_pairs(ps: Seq<(Seq<char>, String)>) -> Seq<(Seq<char>, Seq<char>)> {
    ps.map_values(|e: (Seq<char>, String)| (e.0, e.1@))
}

impl ActionRenderContext {
    /// Renders `args` and records the value of each placeholder they use.
    pub fn prepare(&self, args: &Vec<String>) -> (r: AppResult<PreparedActionExecution>)
        ensures
            match prepare_outcome(views(args@), context_view(*self)) {
                Ok((params, rendered)) => r matches Ok(p) && text_pairs(p.resolved_params.pairs())
                    == params && views(p.rendered_args@) == rendered,
                Err(m) => r matches Err(e) && e.exit_code == ExitCode::ConfigInvalid && e.message@
                    == m,
            },
    {
        let placeholders = referenced_placeholder_names(args)?;
        let ghost ns = placeholders.pairs();
        let mut resolved_params: NameMap<String> = NameMap::new();
        let count = placeholders.len();
        let mut i: usize = 0;
        while i < count
            invariant
                count == ns.len(),
                ns == placeholders.pairs(),
                names_spec(views(args@)) == Ok::<Seq<(Seq<char>, ())>, Seq<char>>(ns),
                sorted_names(ns),
                i <= count,
                first_unresolved(ns.take(i as int), context_view(*self)) is None,
                text_pairs(resolved_params.pairs()) == resolved_pairs(ns.take(i as int), context_view(*self)),
                resolved_params.pairs().len() == i,
                forall|j: int| 0 <= j < i ==> #[trigger] resolved_params.pairs()[j].0 == ns[j].0,
            decreases count - i,
        {
            let name = placeholders.name_at(i);
            proof {
                assert(ns.take(i + 1).drop_last() =~= ns.take(i as int));
                assert(ns.take(i + 1).last() == ns[i as int]);
            }
            let value = match self.resolve_placeholder(name.as_str()) {
                Some(v) => v,
                None => {
                    proof {
                        lemma_first_unresolved_prefix(ns, context_view(*self), i + 1);
                    }
                    return Err(
                        AppError::config_invalid(
                            concat3("placeholder `${", name.as_str(), "}` is not available"),
                        ),
                    );
                },
            };
            let ghost v = value@;
            let ghost before = resolved_params.pairs();
            proof {
                assert forall|j: int| 0 <= j < before.len() implies crate::lex::lex_lt(
                    #[trigger] before[j].0,
                    name@,
                ) by {
                    assert(before[j].0 == ns[j].0);
                    assert(crate::lex::lex_lt(ns[j].0, ns[i as int].0));
                }
                lemma_insert_after_all(before, name@, value);
            }
            resolved_params.insert(name.clone(), value);
            proof {
                let after = resolved_params.pairs();
                assert(after.len() == before.len() + 1);
                assert(after[i as int].0 == name@);
                assert(after[i as int].1@ == v);
                assert(forall|j: int| 0 <= j < i ==> after[j] == before[j]);
                assert forall|j: int| 0 <= j < i + 1 implies #[trigger] text_pairs(after)[j]
                    == resolved_pairs(ns.take(i + 1), context_view(*self))[j] by {
                    if j < i {
                        assert(text_pairs(before)[j] == resolved_pairs(ns.take(i as int), context_view(*self))[j]);
                    }
                }
                assert(text_pairs(resolved_params.pairs()) =~= resolved_pairs(
                    ns.take(i + 1),
                    context_view(*self),
                ));
            }
            i = i + 1;
        }
        proof {
            assert(ns.take(count as int) =~= ns);
        }
        let mut rendered_args: Vec<String> = Vec::new();
        let n = args.len();
        let mut k: usize = 0;
        assert(views(args@).take(0) =~= Seq::<Seq<char>>::empty());
        assert(views(rendered_args@) =~= Seq::<Seq<char>>::empty());
        while k < n
            invariant
                n == args@.len(),
                names_spec(views(args@)) == Ok::<Seq<(Seq<char>, ())>, Seq<char>>(ns),
                first_unresolved(ns, context_view(*self)) is None,
                k <= n,
                render_all(views(args@).take(k as int), context_view(*self)) == Ok::<Seq<Seq<char>>, Seq<char>>(
                    views(rendered_args@),
                ),
            decreases n - k,
        {
            proof {
                assert(views(args@).take(k + 1).drop_last() =~= views(args@).take(k as int));
                assert(views(args@).take(k + 1).last() == args@[k as int]@);
            }
            let text = match render_placeholders(args[k].as_str(), self) {
                Ok(t) => t,
                Err(e) => {
                    proof {
                        lemma_render_all_err(views(args@), context_view(*self), k + 1);
                    }
                    return Err(e);
                },
            };
            let ghost prev = rendered_args@;
            rendered_args.push(text);
            proof {
                assert(views(rendered_args@) =~= views(prev).push(text@));
            }
            k = k + 1;
        }
        proof {
            assert(views(args@).take(n as int) =~= views(args@));
        }
        Ok(PreparedActionExecution { rendered_args, resolved_params })
    }

    /// The arguments with their placeholders rendered.
    pub fn render_args(&self, args: &Vec<String>) -> (r: AppResult<Vec<String>>)
        ensures
            match prepare_outcome(views(args@), context_view(*self)) {
                Ok((_, rendered)) => r matches Ok(v) && views(v@) == rendered,
                Err(m) => r matches Err(e) && e.exit_code == ExitCode::ConfigInvalid && e.message@
                    == m,
            },
    {
        match self.prepare(args) {
            Ok(prepared) => Ok(prepared.rendered_args),
            Err(e) => Err(e),
        }
    }
}

} // verus!
