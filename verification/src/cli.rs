//! The command line of the viewer program.

use crate::text::chars_of;
use vstd::prelude::*;

verus! {

/// Parsed command line arguments
pub struct Args {
    /// `--run <CMD>`: a command to run while the animation plays
    pub run_command: Option<String>,
    /// `--model <FILE>`, or the first argument that is not an option
    pub model_path: Option<String>,
    /// `--countdown <TIME>` or `-c <TIME>`
    pub countdown: Option<String>,
    /// `--timer`
    pub timer: bool,
    /// `-h` or `--help`
    pub show_help: bool,
}

/// The arguments as plain values: run command, model path, countdown,
/// timer and help.
pub type ArgsView = (Option<Seq<char>>, Option<Seq<char>>, Option<Seq<char>>, bool, bool);

impl View for Args {
    type V = ArgsView;

    open spec fn view(&self) -> ArgsView {
        (
            match self.run_command {
                Some(s) => Some(s@),
                None => None,
            },
            match self.model_path {
                Some(s) => Some(s@),
                None => None,
            },
            match self.countdown {
                Some(s) => Some(s@),
                None => None,
            },
            self.timer,
            self.show_help,
        )
    }
}

/// Whether an argument starts with `-`.
pub open spec fn is_option(a: Seq<char>) -> bool {
    a.len() > 0 && a[0] == '-'
}

/// The arguments read from position `i` on, onto `acc`: `-h`/`--help` and
/// `--timer` set their flags; `--run`, `--model` and `--countdown`/`-c`
/// take the next argument when there is one; the first argument that is
/// not an option is the model path unless one is set; anything else is
/// passed over.
pub open spec fn read_args(args: Seq<Seq<char>>, i: int, acc: ArgsView) -> ArgsView
    decreases args.len() - i,
{
    if i < 0 || i >= args.len() {
        acc
    } else {
        let a = args[i];
        let more = i + 1 < args.len();
        if a == "-h"@ || a == "--help"@ {
            read_args(args, i + 1, (acc.0, acc.1, acc.2, acc.3, true))
        } else if a == "--run"@ {
            if more {
                read_args(args, i + 2, (Some(args[i + 1]), acc.1, acc.2, acc.3, acc.4))
            } else {
                read_args(args, i + 1, acc)
            }
        } else if a == "--model"@ {
            if more {
                read_args(args, i + 2, (acc.0, Some(args[i + 1]), acc.2, acc.3, acc.4))
            } else {
                read_args(args, i + 1, acc)
            }
        } else if a == "--countdown"@ || a == "-c"@ {
            if more {
                read_args(args, i + 2, (acc.0, acc.1, Some(args[i + 1]), acc.3, acc.4))
            } else {
                read_args(args, i + 1, acc)
            }
        } else if a == "--timer"@ {
            read_args(args, i + 1, (acc.0, acc.1, acc.2, true, acc.4))
        } else if !is_option(a) {
            read_args(
                args,
                i + 1,
                (acc.0, if acc.1 is None {
                    Some(a)
                } else {
                    acc.1
                }, acc.2, acc.3, acc.4),
            )
        } else {
            read_args(args, i + 1, acc)
        }
    }
}

/// The characters of each argument.
pub open spec fn arg_chars(args: Seq<String>) -> Seq<Seq<char>> {
    args.map_values(|a: String| a@)
}

/// Whether two character vectors hold the same characters.
fn same_chars(a: &Vec<char>, b: &Vec<char>) -> (r: bool)
    ensures
        r == (a@ == b@),
{
    if a.len() != b.len() {
        return false;
    }
    let mut i: usize = 0;
    while i < a.len()
        invariant
            i <= a@.len(),
            a@.len() == b@.len(),
            forall|j: int| 0 <= j < i ==> a@[j] == b@[j],
        decreases a@.len() - i,
    {
        if a[i] != b[i] {
            return false;
        }
        i = i + 1;
    }
    assert(a@ =~= b@);
    true
}

/// Read the program's arguments; the first is the program's name and is
/// skipped.
pub fn parse_args(args: &[String]) -> (r: Args)
    ensures
        r@ == read_args(arg_chars(args@), 1, (None, None, None, false, false)),
{
    let ghost all = arg_chars(args@);
    let short_help = chars_of("-h");
    let long_help = chars_of("--help");
    let run = chars_of("--run");
    let model = chars_of("--model");
    let countdown = chars_of("--countdown");
    let short_countdown = chars_of("-c");
    let timer = chars_of("--timer");
    let mut parsed = Args { run_command: None, model_path: None, countdown: None, timer: false, show_help: false };
    let mut i: usize = 1;
    while i < args.len()
        invariant
            1 <= i,
            all == arg_chars(args@),
            short_help@ == "-h"@,
            long_help@ == "--help"@,
            run@ == "--run"@,
            model@ == "--model"@,
            countdown@ == "--countdown"@,
            short_countdown@ == "-c"@,
            timer@ == "--timer"@,
            read_args(all, i as int, parsed@) == read_args(all, 1, (None, None, None, false, false)),
        decreases args@.len() - i,
    {
        let a = chars_of(args[i].as_str());
        assert(a@ == all[i as int]);
        let more = i + 1 < args.len();
        if same_chars(&a, &short_help) || same_chars(&a, &long_help) {
            parsed.show_help = true;
        } else if same_chars(&a, &run) {
            if more {
                parsed.run_command = Some(args[i + 1].clone());
                i = i + 1;
            }
        } else if same_chars(&a, &model) {
            if more {
                parsed.model_path = Some(args[i + 1].clone());
                i = i + 1;
            }
        } else if same_chars(&a, &countdown) || same_chars(&a, &short_countdown) {
            if more {
                parsed.countdown = Some(args[i + 1].clone());
                i = i + 1;
            }
        } else if same_chars(&a, &timer) {
            parsed.timer = true;
        } else if a.len() == 0 || a[0] != '-' {
            if parsed.model_path.is_none() {
                parsed.model_path = Some(args[i].clone());
            }
        }
        i = i + 1;
    }
    parsed
}

} // verus!
