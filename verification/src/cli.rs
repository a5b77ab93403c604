//! The command line as plain values: global options, the subcommand and its
//! arguments.  Parsing the words of the command line belongs to the program
//! that uses this library; the `key=value` form of `--arg` is parsed here.

use vstd::prelude::*;

verus! {

/// The whole command line.
#[derive(Debug)]
pub struct Cli {
    /// Path to the configuration file.
    pub config: String,
    pub verbose: bool,
    pub quiet: bool,
    pub no_color: bool,
    pub command: Command,
}

/// The subcommands.
#[derive(Debug)]
pub enum Command {
    Init(InitArgs),
    Check,
    List(ListArgs),
    Run(RunArgs),
    Up(UpArgs),
    Down(DownArgs),
    Management(ManagementArgs),
    DaemonUp(DaemonUpArgs),
}

#[derive(Debug)]
pub struct InitArgs {
    pub full: bool,
}

#[derive(Debug)]
pub struct UpArgs {
    pub tui: bool,
    pub keep: bool,
    pub manage: bool,
    pub daemon: bool,
    pub services: Vec<String>,
}

#[derive(Debug, Clone, Copy)]
pub struct ListArgs {
    pub all: bool,
    pub services: bool,
    pub actions: bool,
    pub detail: bool,
    pub dag: bool,
}

/// One `--arg key=value` of a standalone action run.
#[derive(Debug, Clone, PartialEq, Eq)]
pub struct KeyValueArg {
    pub key: String,
    pub value: String,
}

#[derive(Debug)]
pub struct RunArgs {
    pub service: Option<String>,
    pub action: Option<String>,
    pub with_all_hooks: bool,
    pub without_hooks: bool,
    pub hook: Vec<String>,
    pub args: Vec<KeyValueArg>,
}

#[derive(Debug)]
pub struct DownArgs {
    pub force: bool,
}

#[derive(Debug)]
pub struct ManagementArgs {
    pub watch: bool,
    pub json: bool,
}

#[derive(Debug)]
pub struct DaemonUpArgs {
    pub services: Vec<String>,
}

/// The position of the first `=` in `s`, if any.
pub open spec fn first_equals(s: Seq<char>) -> Option<int> {
    if exists|i: int| 0 <= i < s.len() && s[i] == '=' {
        Some(choose|i: int| 0 <= i < s.len() && s[i] == '=' && forall|j: int| 0 <= j < i ==> s[j] != '=')
    } else {
        None
    }
}

/// Parses `key=value`, splitting at the first `=`; the key must not be empty.
pub fn parse_key_value_arg(input: &str) -> (r: Result<KeyValueArg, String>)
    ensures
        match first_equals(input@) {
            None => r matches Err(m) && m@ == "invalid `--arg` value `"@ + input@
                + "`; expected key=value"@,
            Some(i) => if i == 0 {
                r matches Err(m) && m@ == "invalid `--arg` value `"@ + input@
                    + "`; key must not be empty"@
            } else {
                r matches Ok(kv) && kv.key@ == input@.take(i) && kv.value@ == input@.skip(i + 1)
            },
        },
{
    let n = input.unicode_len();
    let mut i: usize = 0;
    while i < n
        invariant
            n == input@.len(),
            i <= n,
            forall|j: int| 0 <= j < i ==> input@[j] != '=',
        decreases n - i,
    {
        if input.get_char(i) == '=' {
            proof {
                assert(input@[i as int] == '=');
                let c = choose|c: int|
                    0 <= c < input@.len() && input@[c] == '=' && forall|j: int|
                        0 <= j < c ==> input@[j] != '=';
                assert(c == i) by {
                    if c < i {
                        assert(input@[c] != '=');
                    } else if c > i {
                        assert(input@[i as int] != '=');
                    }
                }
            }
            if i == 0 {
                proof {
                    reveal_strlit("invalid `--arg` value `");
                    reveal_strlit("`; key must not be empty");
                }
                return Err(
                    crate::text::concat3(
                        "invalid `--arg` value `",
                        input,
                        "`; key must not be empty",
                    ),
                );
            }
            let key = input.substring_char(0, i);
            let value = input.substring_char(i + 1, n);
            proof {
                assert(key@ =~= input@.take(i as int));
                assert(value@ =~= input@.skip(i + 1));
            }
            return Ok(KeyValueArg { key: key.to_owned(), value: value.to_owned() });
        }
        i = i + 1;
    }
    proof {
        reveal_strlit("invalid `--arg` value `");
        reveal_strlit("`; expected key=value");
    }
    Err(crate::text::concat3("invalid `--arg` value `", input, "`; expected key=value"))
}

} // verus!
