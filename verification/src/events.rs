//! Runtime events as text: the `key="value"` detail of an event, the line
//! an event takes in the instance log, and the notices around restarts.

use vstd::prelude::*;

use crate::error::{AppError, AppResult};
use crate::runtime_state::RuntimeEvent;
use crate::text::{concat2, dec_digits, decimal, join, join_spec, same_text, views};

verus! {

/// The lower-case hexadecimal digit of `d`.
pub open spec fn hex_digit(d: int) -> char {
    if d < 10 {
        ((48 + d) as u32) as char
    } else {
        ((87 + d) as u32) as char
    }
}

/// How JSON writes character `c` inside a string.
pub open spec fn json_char(c: char) -> Seq<char> {
    if c == '"' {
        seq!['\\', '"']
    } else if c == '\\' {
        seq!['\\', '\\']
    } else if c == '\u{8}' {
        seq!['\\', 'b']
    } else if c == '\t' {
        seq!['\\', 't']
    } else if c == '\n' {
        seq!['\\', 'n']
    } else if c == '\u{c}' {
        seq!['\\', 'f']
    } else if c == '\r' {
        seq!['\\', 'r']
    } else if (c as u32) < 32 {
        seq!['\\', 'u', '0', '0', hex_digit((c as u32) as int / 16), hex_digit((c as u32) as int % 16)]
    } else {
        seq![c]
    }
}

/// The characters of `s` as JSON writes them inside a string.
pub open spec fn json_escaped(s: Seq<char>) -> Seq<char>
    decreases s.len(),
{
    if s.len() == 0 {
        Seq::empty()
    } else {
        json_escaped(s.drop_last()) + json_char(s.last())
    }
}

/// `s` as a JSON string.
pub open spec fn json_quoted(s: Seq<char>) -> Seq<char> {
    seq!['"'] + json_escaped(s) + seq!['"']
}

/// `serde_json::to_string` on a string: the string quoted, with `"`, `\`
/// and the control characters escaped (the short escapes where JSON has
/// them, `\u00xx` in lower-case hexadecimal otherwise) and every other
/// character as it is.  Serialising a string into memory does not fail.
#[verifier::external_body]
fn json_string(value: &str) -> (r: Option<String>)
    ensures
        r is Some,
        r.unwrap()@ == json_quoted(value@),
{
    serde_json::to_string(value).ok()
}

/// A value as it appears in a log field: a JSON string.
pub fn quote_log_value(value: &str) -> (r: String)
    ensures
        r@ == json_quoted(value@),
{
    json_string(value).unwrap()
}

/// `key=value` fields, the values quoted, separated by spaces.
pub open spec fn detail_fields(fields: Seq<(Seq<char>, Seq<char>)>) -> Seq<char> {
    join_spec(
        fields.map_values(|f: (Seq<char>, Seq<char>)| f.0 + "="@ + json_quoted(f.1)),
        " "@,
    )
}

/// The fields of a slice of key-value pairs as plain text.
pub open spec fn field_texts(fields: Seq<(&str, String)>) -> Seq<(Seq<char>, Seq<char>)> {
    fields.map_values(|f: (&str, String)| (f.0@, f.1@))
}

/// Renders `key="value"` fields separated by spaces.
pub fn format_detail_fields(fields: &[(&str, String)]) -> (r: String)
    ensures
        r@ == detail_fields(field_texts(fields@)),
{
    proof {
        reveal_strlit("=");
    }
    let ghost fs = field_texts(fields@);
    let ghost f = |f: (Seq<char>, Seq<char>)| f.0 + "="@ + json_quoted(f.1);
    let mut parts: Vec<String> = Vec::new();
    let n = fields.len();
    let mut i: usize = 0;
    while i < n
        invariant
            n == fields@.len(),
            fs == field_texts(fields@),
            forall|x: (Seq<char>, Seq<char>)| #[trigger] f(x) == x.0 + "="@ + json_quoted(x.1),
            i <= n,
            views(parts@) == fs.map_values(f).take(i as int),
        decreases n - i,
    {
        let (key, value) = &fields[i];
        let ghost prev = views(parts@);
        let mut part = concat2(*key, "=");
        part.append(quote_log_value(value.as_str()).as_str());
        parts.push(part);
        proof {
            assert(fs[i as int] == (key@, value@));
            assert(part@ =~= f(fs[i as int]));
            assert(views(parts@) =~= prev.push(part@));
            assert(fs.map_values(f).take(i + 1) =~= fs.map_values(f).take(i as int).push(part@));
        }
        i = i + 1;
    }
    proof {
        assert(fs.map_values(f).take(n as int) =~= fs.map_values(f));
        assert(fs.map_values(f) =~= fs.map_values(
            |x: (Seq<char>, Seq<char>)| x.0 + "="@ + json_quoted(x.1),
        ));
    }
    join(&parts, " ")
}

/// The severity of an event type.
pub open spec fn level_of(event_type: Seq<char>) -> Seq<char> {
    if event_type == "service_spawn_failed"@ || event_type == "service_start_failed"@ || event_type
        == "service_stop_failed"@ || event_type == "hook_failed"@ || event_type
        == "action_failed"@ || event_type == "service_runtime_exit_unexpected"@ {
        "ERROR"@
    } else if event_type == "instance_stopping"@ || event_type == "service_stop_timeout"@
        || event_type == "action_timed_out"@ || event_type == "service_restart_skipped"@
        || event_type == "watch_restart_skipped"@ {
        "WARN"@
    } else {
        "INFO"@
    }
}

pub fn event_level(event_type: &str) -> (r: &'static str)
    ensures
        r@ == level_of(event_type@),
{
    proof {
        reveal_strlit("ERROR");
        reveal_strlit("WARN");
        reveal_strlit("INFO");
    }
    if same_text(event_type, "service_spawn_failed") || same_text(event_type, "service_start_failed")
        || same_text(event_type, "service_stop_failed") || same_text(event_type, "hook_failed")
        || same_text(event_type, "action_failed") || same_text(
        event_type,
        "service_runtime_exit_unexpected",
    ) {
        "ERROR"
    } else if same_text(event_type, "instance_stopping") || same_text(
        event_type,
        "service_stop_timeout",
    ) || same_text(event_type, "action_timed_out") || same_text(
        event_type,
        "service_restart_skipped",
    ) || same_text(event_type, "watch_restart_skipped") {
        "WARN"
    } else {
        "INFO"
    }
}

/// An optional log field: present only when there is a value.
pub open spec fn opt_field(key: Seq<char>, value: Option<String>) -> Seq<Seq<char>> {
    match value {
        Some(v) => seq![key + "="@ + json_quoted(v@)],
        None => Seq::empty(),
    }
}

/// Adds `key="value"` to `fields` when there is a value.
pub fn append_log_field(fields: &mut Vec<String>, key: &str, value: Option<&str>)
    ensures
        views(final(fields)@) == views(old(fields)@) + match value {
            Some(v) => seq![key@ + "="@ + json_quoted(v@)],
            None => Seq::<Seq<char>>::empty(),
        },
{
    proof {
        reveal_strlit("=");
    }
    match value {
        Some(v) => {
            let mut field = concat2(key, "=");
            field.append(quote_log_value(v).as_str());
            fields.push(field);
            proof {
                assert(views(fields@) =~= views(old(fields)@) + seq![field@]);
            }
        },
        None => {
            proof {
                assert(views(fields@) =~= views(old(fields)@) + Seq::<Seq<char>>::empty());
            }
        },
    }
}

/// The line an event takes in the instance log.
pub open spec fn instance_log_line(e: RuntimeEvent) -> Seq<char> {
    join_spec(
        seq![
            "ts="@ + dec_digits(e.timestamp_unix_secs as nat),
            "level="@ + level_of(e.event_type@),
            "event="@ + json_quoted(e.event_type@),
        ] + opt_field("service"@, e.service_name) + opt_field("hook"@, e.hook_name) + opt_field(
            "action"@,
            e.action_name,
        ) + seq!["detail="@ + json_quoted(e.detail@)],
        " "@,
    )
}

fn opt_str(o: &Option<String>) -> (r: Option<&str>)
    ensures
        match *o {
            Some(s) => r matches Some(t) && t@ == s@,
            None => r is None,
        },
{
    match o {
        Some(s) => Some(s.as_str()),
        None => None,
    }
}

/// Renders an event as a line of the instance log.
pub fn format_instance_log_line(event: &RuntimeEvent) -> (r: String)
    ensures
        r@ == instance_log_line(*event),
{
    proof {
        reveal_strlit("ts=");
        reveal_strlit("level=");
        reveal_strlit("event=");
        reveal_strlit("service");
        reveal_strlit("hook");
        reveal_strlit("action");
        reveal_strlit("detail");
        reveal_strlit("=");
    }
    let mut fields: Vec<String> = Vec::new();
    fields.push(concat2("ts=", decimal(event.timestamp_unix_secs).as_str()));
    fields.push(concat2("level=", event_level(event.event_type.as_str())));
    fields.push(concat2("event=", quote_log_value(event.event_type.as_str()).as_str()));
    let ghost head = views(fields@);
    proof {
        assert(head =~= seq![
            "ts="@ + dec_digits(event.timestamp_unix_secs as nat),
            "level="@ + level_of(event.event_type@),
            "event="@ + json_quoted(event.event_type@),
        ]);
    }
    append_log_field(&mut fields, "service", opt_str(&event.service_name));
    proof {
        assert(views(fields@) =~= head + opt_field("service"@, event.service_name));
    }
    let ghost h2 = views(fields@);
    append_log_field(&mut fields, "hook", opt_str(&event.hook_name));
    proof {
        assert(views(fields@) =~= h2 + opt_field("hook"@, event.hook_name));
    }
    let ghost h3 = views(fields@);
    append_log_field(&mut fields, "action", opt_str(&event.action_name));
    proof {
        assert(views(fields@) =~= h3 + opt_field("action"@, event.action_name));
    }
    let ghost h4 = views(fields@);
    append_log_field(&mut fields, "detail", Some(event.detail.as_str()));
    proof {
        reveal_strlit("detail=");
        assert("detail"@ + "="@ =~= "detail="@);
        assert(views(fields@) =~= h4 + seq!["detail="@ + json_quoted(event.detail@)]);
        assert(views(fields@) =~= seq![
            "ts="@ + dec_digits(event.timestamp_unix_secs as nat),
            "level="@ + level_of(event.event_type@),
            "event="@ + json_quoted(event.event_type@),
        ] + opt_field("service"@, event.service_name) + opt_field("hook"@, event.hook_name)
            + opt_field("action"@, event.action_name) + seq![
            "detail="@ + json_quoted(event.detail@),
        ]);
    }
    join(&fields, " ")
}

/// `s` with two digits at least, padded with a zero.
pub open spec fn two_digits(n: nat) -> Seq<char> {
    if n < 10 {
        seq!['0'] + dec_digits(n)
    } else {
        dec_digits(n)
    }
}

fn format_two_digits(n: u64) -> (r: String)
    ensures
        r@ == two_digits(n as nat),
{
    proof {
        reveal_strlit("0");
    }
    if n < 10 {
        concat2("0", decimal(n).as_str())
    } else {
        decimal(n)
    }
}

/// An elapsed time as `MM:SS`, or `HH:MM:SS` from an hour on.
pub open spec fn elapsed_text(total: nat) -> Seq<char> {
    let hours = total / 3600;
    let minutes = (total % 3600) / 60;
    let seconds = total % 60;
    if hours > 0 {
        two_digits(hours) + ":"@ + two_digits(minutes) + ":"@ + two_digits(seconds)
    } else {
        two_digits(minutes) + ":"@ + two_digits(seconds)
    }
}

/// Renders `total_secs` seconds as `MM:SS` or `HH:MM:SS`.
pub fn format_elapsed(total_secs: u64) -> (r: String)
    ensures
        r@ == elapsed_text(total_secs as nat),
{
    proof {
        reveal_strlit(":");
    }
    let hours = total_secs / 3600;
    let minutes = (total_secs % 3600) / 60;
    let seconds = total_secs % 60;
    let mut out = String::new();
    if hours > 0 {
        out.append(format_two_digits(hours).as_str());
        out.append(":");
    }
    out.append(format_two_digits(minutes).as_str());
    out.append(":");
    out.append(format_two_digits(seconds).as_str());
    out
}

} // verus!
