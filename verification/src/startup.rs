//! `startup install`: the per-user "Run" entry that starts the window at
//! sign-in.
use vstd::prelude::*;

use crate::lighting_cli::args_view;
use crate::text::{concat3, owned, str_eq};

verus! {

broadcast use vstd::string::group_string_axioms;

/// The registry key of per-user start-up programs.
pub const RUN_KEY_PATH: &'static str = "Software\\Microsoft\\Windows\\CurrentVersion\\Run";

/// The name of the application's value under that key.
pub const STARTUP_VALUE_NAME: &'static str = "HyperXMicLite";

pub open spec fn is_startup_flag(a: Seq<char>) -> bool {
    a == "--minimized"@ || a == "--normal"@
}

pub open spec fn startup_usage_text() -> Seq<char> {
    "Usage: hyperx-mic-lite startup install [--minimized|--normal]"@
}

/// Whether start-up should open the window minimized: yes unless
/// `--normal` is given; any argument other than the two flags is a usage
/// error.
pub open spec fn startup_flags_spec(args: Seq<Seq<char>>) -> Result<bool, Seq<char>> {
    if exists|i: int| 0 <= i < args.len() && !is_startup_flag(#[trigger] args[i]) {
        Err(startup_usage_text())
    } else {
        Ok(!exists|i: int| 0 <= i < args.len() && #[trigger] args[i] == "--normal"@)
    }
}

pub fn startup_install_minimized(args: &[String]) -> (r: Result<bool, String>)
    ensures
        match startup_flags_spec(args_view(args@)) {
            Ok(b) => r == Ok::<bool, String>(b),
            Err(m) => r matches Err(e) && e@ == m,
        },
{
    let ghost a = args_view(args@);
    let mut normal = false;
    let mut i: usize = 0;
    while i < args.len()
        invariant
            i <= args@.len(),
            a == args_view(args@),
            forall|j: int| 0 <= j < i ==> is_startup_flag(#[trigger] a[j]),
            normal == exists|j: int| 0 <= j < i && #[trigger] a[j] == "--normal"@,
        decreases args@.len() - i,
    {
        let arg = args[i].as_str();
        assert(a[i as int] == arg@);
        if str_eq(arg, "--normal") {
            normal = true;
        } else if !str_eq(arg, "--minimized") {
            return Err(owned("Usage: hyperx-mic-lite startup install [--minimized|--normal]"));
        }
        proof {
            if normal {
                if a[i as int] != "--normal"@ {
                    let j = choose|j: int| 0 <= j < i && #[trigger] a[j] == "--normal"@;
                    assert(a[j] == "--normal"@);
                }
            }
        }
        i = i + 1;
    }
    Ok(!normal)
}

/// The command line stored for start-up: the quoted executable and `gui`,
/// with `--start-minimized` when asked for.
pub fn startup_command(executable: &str, start_minimized: bool) -> (r: String)
    ensures
        r@ == (if start_minimized {
            "\""@ + executable@ + "\" gui --start-minimized"@
        } else {
            "\""@ + executable@ + "\" gui"@
        }),
{
    if start_minimized {
        concat3("\"", executable, "\" gui --start-minimized")
    } else {
        concat3("\"", executable, "\" gui")
    }
}

} // verus!
