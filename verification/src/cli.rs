//! Command line: the TUI by default, `core` passes the rest to mihomo, `help` prints usage.
use vstd::prelude::*;
use crate::strings::{to_owned_string, push_str, str_eq};

verus! {

/// Version of this program.
pub const VERSION: &'static str = "0.1.0";

/// What the command line asks for.
#[derive(Debug, Clone, PartialEq, Eq)]
pub enum Cli {
    /// Start the TUI.
    Tui,
    /// Run the embedded mihomo with these arguments, unchanged.
    Core(Vec<String>),
    /// Print usage.
    Help,
}

pub open spec fn is_core_word(s: Seq<char>) -> bool {
    s == "core"@ || s == "--core"@
}

pub open spec fn is_help_word(s: Seq<char>) -> bool {
    s == "help"@ || s == "-h"@ || s == "--help"@
}

impl Cli {
    /// Reads the arguments after the program name: only the first one
    /// decides; unknown words start the TUI.
    pub fn parse(args: Vec<String>) -> (c: Self)
        ensures
            args@.len() == 0 ==> c == Cli::Tui,
            args@.len() > 0 && is_core_word(args@[0]@) ==>
                (c matches Cli::Core(rest) && rest@ == args@.skip(1)),
            args@.len() > 0 && !is_core_word(args@[0]@) && is_help_word(args@[0]@) ==> c == Cli::Help,
            args@.len() > 0 && !is_core_word(args@[0]@) && !is_help_word(args@[0]@) ==> c == Cli::Tui,
    {
        if args.len() == 0 {
            return Cli::Tui;
        }
        let first = args[0].as_str();
        if str_eq(first, "core") || str_eq(first, "--core") {
            let mut rest: Vec<String> = Vec::new();
            let mut i: usize = 1;
            while i < args.len()
                invariant
                    1 <= i <= args@.len(),
                    rest@ == args@.subrange(1, i as int),
                decreases args@.len() - i,
            {
                rest.push(args[i].clone());
                proof {
                    assert(rest@ =~= args@.subrange(1, i as int + 1));
                }
                i = i + 1;
            }
            proof {
                assert(args@.subrange(1, args@.len() as int) =~= args@.skip(1));
            }
            return Cli::Core(rest);
        }
        if str_eq(first, "help") || str_eq(first, "-h") || str_eq(first, "--help") {
            return Cli::Help;
        }
        Cli::Tui
    }
}

/// Body of the usage text after the version.
pub open spec fn usage_body() -> Seq<char> {
    " - 基于 mihomo 内核的 TUI\n\n用法:\n  coclash               启动 TUI（默认）\n  coclash core [参数]   直接运行内嵌 mihomo，参数原样透传\n  coclash help          显示本帮助\n\n示例:\n  coclash core -v                 查看内核版本\n  coclash core -d ~/.config/coclash -f config.yaml\n"@
}

/// The usage text of `help`.
pub fn help_text() -> (r: String)
    ensures
        r@ == "coclash "@ + VERSION@ + usage_body(),
{
    let mut r = to_owned_string("coclash ");
    push_str(&mut r, VERSION);
    push_str(&mut r, " - 基于 mihomo 内核的 TUI\n\n用法:\n  coclash               启动 TUI（默认）\n  coclash core [参数]   直接运行内嵌 mihomo，参数原样透传\n  coclash help          显示本帮助\n\n示例:\n  coclash core -v                 查看内核版本\n  coclash core -d ~/.config/coclash -f config.yaml\n");
    r
}

} // verus!
