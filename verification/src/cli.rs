//! The command line of the desktop app.
use vstd::prelude::*;
use crate::text::str_eq;

verus! {

/// What the command line asks for.
pub enum Command {
    /// Open the window, in kiosk mode or not.
    Run { kiosk: bool },
    /// Print what the package gets called and described as.
    Meta,
    /// Write the baked in icon to the file, when one was given.
    WriteIcon(Option<String>),
    /// Print the baked in configuration.
    PrintConfig,
    Version,
    Help,
    /// An option nobody knows.
    Unknown(String),
}

pub enum CommandView {
    Run { kiosk: bool },
    Meta,
    WriteIcon(Option<Seq<char>>),
    PrintConfig,
    Version,
    Help,
    Unknown(Seq<char>),
}

impl Command {
    pub open spec fn view(&self) -> CommandView {
        match self {
            Command::Run { kiosk } => CommandView::Run { kiosk: *kiosk },
            Command::Meta => CommandView::Meta,
            Command::WriteIcon(f) => CommandView::WriteIcon(match f {
                Some(s) => Some(s@),
                None => None,
            }),
            Command::PrintConfig => CommandView::PrintConfig,
            Command::Version => CommandView::Version,
            Command::Help => CommandView::Help,
            Command::Unknown(s) => CommandView::Unknown(s@),
        }
    }
}

/// The arguments from `i` on: `--kiosk` turns kiosk mode on and goes on;
/// the first other one decides (`--write-icon` takes the next as its file).
pub open spec fn command_spec(args: Seq<Seq<char>>, i: int, kiosk: bool) -> CommandView
    decreases args.len() - i,
{
    if i < 0 || i >= args.len() {
        CommandView::Run { kiosk }
    } else {
        let a = args[i];
        if a == "--kiosk"@ {
            command_spec(args, i + 1, true)
        } else if a == "--meta"@ {
            CommandView::Meta
        } else if a == "--write-icon"@ {
            CommandView::WriteIcon(if i + 1 < args.len() { Some(args[i + 1]) } else { None })
        } else if a == "--print-config"@ {
            CommandView::PrintConfig
        } else if a == "--version"@ {
            CommandView::Version
        } else if a == "--help"@ || a == "-h"@ {
            CommandView::Help
        } else {
            CommandView::Unknown(a)
        }
    }
}

pub open spec fn args_view(args: Seq<String>) -> Seq<Seq<char>> {
    args.map_values(|a: String| a@)
}

/// What the arguments (without the program's name) ask for; `kiosk` is the
/// configuration's own say.
pub fn parse_args(args: &Vec<String>, kiosk: bool) -> (c: Command)
    ensures
        c.view() == command_spec(args_view(args@), 0, kiosk),
{
    let ghost av = args_view(args@);
    let ghost given = kiosk;
    let mut kiosk = kiosk;
    let mut i: usize = 0;
    while i < args.len()
        invariant
            i <= args@.len(),
            av == args_view(args@),
            command_spec(av, 0, given) == command_spec(av, i as int, kiosk),
        decreases args@.len() - i,
    {
        let a = args[i].as_str();
        assert(av[i as int] == a@);
        if str_eq(a, "--kiosk") {
            kiosk = true;
        } else if str_eq(a, "--meta") {
            return Command::Meta;
        } else if str_eq(a, "--write-icon") {
            if i + 1 < args.len() {
                assert(av[i + 1] == args@[i + 1]@);
                return Command::WriteIcon(Some(args[i + 1].clone()));
            }
            return Command::WriteIcon(None);
        } else if str_eq(a, "--print-config") {
            return Command::PrintConfig;
        } else if str_eq(a, "--version") {
            return Command::Version;
        } else if str_eq(a, "--help") || str_eq(a, "-h") {
            return Command::Help;
        } else {
            return Command::Unknown(args[i].clone());
        }
        i = i + 1;
    }
    Command::Run { kiosk }
}

/// The command line: with nothing but `--kiosk`s (or nothing at all) the app
/// runs, in kiosk mode where the config or any of them asks for it; the
/// first other argument decides alone, whatever follows it: `--help`/`-h`
/// help, `--version` the version, `--meta` the packaging data,
/// `--print-config` the config, `--write-icon` the icon (to the argument
/// after it), anything else is reported as unknown. The app only runs when
/// every argument is `--kiosk`.
pub proof fn law_arguments(args: Seq<Seq<char>>, rest: Seq<Seq<char>>, a: Seq<char>, kiosk: bool)
    ensures
        (forall|i: int| 0 <= i < args.len() ==> #[trigger] args[i] == "--kiosk"@)
            ==> command_spec(args, 0, kiosk) == (CommandView::Run { kiosk: kiosk || args.len() > 0 }),
        command_spec(args, 0, kiosk) is Run ==> forall|i: int| 0 <= i < args.len() ==> #[trigger] args[i] == "--kiosk"@,
        a != "--kiosk"@ && a != "--write-icon"@ ==> command_spec(seq![a] + rest, 0, kiosk) == command_spec(seq![a], 0, false),
        command_spec(seq!["--help"@], 0, kiosk) == CommandView::Help,
        command_spec(seq!["-h"@], 0, kiosk) == CommandView::Help,
        command_spec(seq!["--version"@], 0, kiosk) == CommandView::Version,
        command_spec(seq!["--meta"@], 0, kiosk) == CommandView::Meta,
        command_spec(seq!["--print-config"@], 0, kiosk) == CommandView::PrintConfig,
        command_spec(seq!["--write-icon"@, a], 0, kiosk) == CommandView::WriteIcon(Some(a)),
        a != "--kiosk"@ && a != "--meta"@ && a != "--write-icon"@ && a != "--print-config"@ && a != "--version"@
            && a != "--help"@ && a != "-h"@ ==> command_spec(seq![a] + rest, 0, kiosk) == CommandView::Unknown(a),
{
    reveal_strlit("--kiosk");
    reveal_strlit("--meta");
    reveal_strlit("--write-icon");
    reveal_strlit("--print-config");
    reveal_strlit("--version");
    reveal_strlit("--help");
    reveal_strlit("-h");
    lemma_all_kiosk(args, 0, kiosk);
    let s = seq![a] + rest;
    assert(s[0] == a);
    assert(seq![a][0] == a);
    let w = seq!["--write-icon"@, a];
    assert(w[0] == "--write-icon"@ && w[1] == a && w.len() == 2);
    assert("--write-icon"@ != "--kiosk"@ && "--write-icon"@ != "--meta"@) by {
        assert("--write-icon"@.len() == 12 && "--kiosk"@.len() == 7 && "--meta"@.len() == 6);
    }
    assert(command_spec(w, 0, kiosk) == CommandView::WriteIcon(Some(a)));
    assert("--meta"@ != "--help"@) by {
        assert("--meta"@[2] != "--help"@[2]);
    }
    assert(seq!["--help"@][0] == "--help"@);
    assert(seq!["-h"@][0] == "-h"@);
    assert(seq!["--version"@][0] == "--version"@);
    assert(seq!["--meta"@][0] == "--meta"@);
    assert(seq!["--print-config"@][0] == "--print-config"@);
}

proof fn lemma_all_kiosk(args: Seq<Seq<char>>, i: int, kiosk: bool)
    requires
        0 <= i <= args.len(),
    ensures
        (forall|j: int| i <= j < args.len() ==> #[trigger] args[j] == "--kiosk"@)
            ==> command_spec(args, i, kiosk) == (CommandView::Run { kiosk: kiosk || args.len() > i }),
        command_spec(args, i, kiosk) is Run ==> forall|j: int| i <= j < args.len() ==> #[trigger] args[j] == "--kiosk"@,
    decreases args.len() - i,
{
    if i < args.len() {
        lemma_all_kiosk(args, i + 1, true);
        if command_spec(args, i, kiosk) is Run {
            assert(args[i] == "--kiosk"@);
        }
    }
}

/// What `--version` prints: the app's name, its version when it has one, and tacoshell's.
pub open spec fn version_spec(name: Seq<char>, version: Option<Seq<char>>, own: Seq<char>) -> Seq<char> {
    match version {
        Some(v) => name + " "@ + v + " (tacoshell "@ + own + ")"@,
        None => name + " (tacoshell "@ + own + ")"@,
    }
}

/// The `--version` line.
pub fn version_line(name: &str, version: &Option<String>, own: &str) -> (line: String)
    ensures
        line@ == version_spec(name@, match version {
            Some(v) => Some(v@),
            None => None,
        }, own@),
{
    let mut line = String::from_str(name);
    if let Some(v) = version {
        line.append(" ");
        line.append(v.as_str());
    }
    line.append(" (tacoshell ");
    line.append(own);
    line.append(")");
    line
}

} // verus!
