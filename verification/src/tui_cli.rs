//! Arguments of the terminal user interface's launcher: an optional
//! alternate bands configuration file, or a request for help.
use crate::text;
use vstd::prelude::*;

verus! {

/// What the launcher's arguments ask for.
#[derive(Debug, Clone, PartialEq, Eq)]
pub enum TuiCommand {
    /// Print the help text and stop.
    ShowHelp,
    /// Start the interface, with presets from this file when one is given.
    Run { bands_config: Option<String> },
}

/// A `TuiCommand` with its path as a character sequence.
pub enum TuiCommandView {
    ShowHelp,
    Run { bands_config: Option<Seq<char>> },
}

impl View for TuiCommand {
    type V = TuiCommandView;

    open spec fn view(&self) -> TuiCommandView {
        match self {
            TuiCommand::ShowHelp => TuiCommandView::ShowHelp,
            TuiCommand::Run { bands_config } => TuiCommandView::Run {
                bands_config: match bands_config {
                    Some(p) => Some(p@),
                    None => None,
                },
            },
        }
    }
}

/// The arguments read left to right: `--bands-config <path>` sets the file
/// (the last one counts), `-h` or `--help` asks for help, anything else is
/// an error naming it.
pub open spec fn tui_args_spec(args: Seq<Seq<char>>, config: Option<Seq<char>>) -> Result<
    TuiCommandView,
    Seq<char>,
>
    decreases args.len(),
{
    if args.len() == 0 {
        Ok(TuiCommandView::Run { bands_config: config })
    } else if args[0] == "--bands-config"@ {
        if args.len() < 2 {
            Err("--bands-config requires a path argument"@)
        } else {
            tui_args_spec(args.subrange(2, args.len() as int), Some(args[1]))
        }
    } else if args[0] == "-h"@ || args[0] == "--help"@ {
        Ok(TuiCommandView::ShowHelp)
    } else {
        Err("unknown TUI argument '"@ + args[0] + "'. Supported: --bands-config <path>"@)
    }
}

/// The launcher's help text.
pub open spec fn tui_help_spec() -> Seq<char> {
    "Rusty Wire TUI\n\nUsage:\n  rusty-wire-tui [--bands-config <path>]\n\nOptions:\n  --bands-config <path>  Load named TUI band presets from an alternate TOML file\n  -h, --help             Show this help text"@
}

/// The launcher's help text.
pub fn tui_help_text() -> (s: &'static str)
    ensures
        s@ == tui_help_spec(),
{
    "Rusty Wire TUI\n\nUsage:\n  rusty-wire-tui [--bands-config <path>]\n\nOptions:\n  --bands-config <path>  Load named TUI band presets from an alternate TOML file\n  -h, --help             Show this help text"
}

/// Reads the launcher's arguments (program name excluded).
pub fn parse_band_config_arg(args: &[String]) -> (r: Result<TuiCommand, String>)
    ensures
        r matches Ok(c) ==> tui_args_spec(args@.map_values(|a: String| a@), None) == Ok::<
            TuiCommandView,
            Seq<char>,
        >(c@),
        r matches Err(e) ==> tui_args_spec(args@.map_values(|a: String| a@), None) == Err::<
            TuiCommandView,
            Seq<char>,
        >(e@),
{
    let ghost all = args@.map_values(|a: String| a@);
    let n = args.len();
    let mut index: usize = 0;
    let mut band_config: Option<String> = None;
    assert(all.subrange(0, n as int) =~= all);
    while index < n
        invariant
            index <= n,
            n == args@.len(),
            all == args@.map_values(|a: String| a@),
            tui_args_spec(all, None) == tui_args_spec(
                all.subrange(index as int, n as int),
                match band_config {
                    Some(p) => Some(p@),
                    None => None,
                },
            ),
        decreases n - index,
    {
        let ghost rest = all.subrange(index as int, n as int);
        let arg = text::chars_of(args[index].as_str());
        assert(rest[0] == arg@);
        if text::chars_eq_str(&arg, "--bands-config") {
            if index + 1 >= n {
                return Err(String::from_str("--bands-config requires a path argument"));
            }
            assert(rest[1] == args@[index + 1]@);
            assert(rest.subrange(2, rest.len() as int) =~= all.subrange(index + 2, n as int));
            band_config = Some(args[index + 1].clone());
            index = index + 2;
        } else if text::chars_eq_str(&arg, "-h") || text::chars_eq_str(&arg, "--help") {
            return Ok(TuiCommand::ShowHelp);
        } else {
            let mut m: Vec<char> = Vec::new();
            text::push_str(&mut m, "unknown TUI argument '");
            text::push_all(&mut m, &arg);
            text::push_str(&mut m, "'. Supported: --bands-config <path>");
            return Err(text::string_of(&m));
        }
    }
    assert(all.subrange(n as int, n as int).len() == 0);
    Ok(TuiCommand::Run { bands_config: band_config })
}

} // verus!
