use vstd::prelude::*;

use crate::listing::{trim_text, trimmed};

verus! {

/// The name of the configuration value that holds the signing key.
pub open spec fn signing_key_name() -> Seq<char> {
    "user.signingkey"@
}

/// Whether the global configuration is the one to read and write: only when
/// it is asked for and the local one is not.
pub fn use_global_scope(global: bool, local: bool) -> (r: bool)
    ensures
        r == (global && !local),
{
    global && !local
}

/// The arguments of `git` that read the signing key (`value` is `None`) or
/// set it to `value`, in the local configuration or the global one.
pub open spec fn config_args_of(global: bool, value: Option<Seq<char>>) -> Seq<Seq<char>> {
    seq!["config"@] + (if global {
        seq!["--global"@]
    } else {
        Seq::empty()
    }) + seq![signing_key_name()] + match value {
        Some(v) => seq![v],
        None => Seq::empty(),
    }
}

/// The arguments of `git` that read the signing key (`value` is `None`) or
/// set it to `value`.
pub fn config_args(global: bool, value: Option<&str>) -> (r: Vec<String>)
    ensures
        r@.map_values(|a: String| a@) == config_args_of(
            global,
            match value {
                Some(v) => Some(v@),
                None => None,
            },
        ),
{
    let mut args: Vec<String> = Vec::new();
    args.push(String::from_str("config"));
    if global {
        args.push(String::from_str("--global"));
    }
    args.push(String::from_str("user.signingkey"));
    if let Some(v) = value {
        args.push(String::from_str(v));
    }
    proof {
        assert(args@.map_values(|a: String| a@) =~= config_args_of(
            global,
            match value {
                Some(v) => Some(v@),
                None => None,
            },
        ));
    }
    args
}

/// The configured signing key that `git config` reports: its output without
/// surrounding white space when it succeeded, and none when it failed.
pub fn configured_key(output: &str, success: bool) -> (r: Option<String>)
    ensures
        success ==> (r matches Some(k) && k@ == trimmed(output@)),
        !success ==> r is None,
{
    if success {
        Some(trim_text(output))
    } else {
        None
    }
}

} // verus!
