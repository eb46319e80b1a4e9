//! The command line: which flags the program takes, and what they ask for.
use vstd::prelude::*;

use crate::text::{chars_of, is_number_literal, number_literal, owned, push_str, same_text};

verus! {

/// What the command line asks for.
#[derive(Debug)]
pub enum Command {
    /// Print the help text.
    Help,
    /// Print the version.
    Version,
    /// Drop the saved location.
    Forget,
    /// Run the app, at these coordinates (latitude and longitude, as number
    /// literals) if they were given.
    Run(Option<(String, String)>),
}

pub enum CommandView {
    Help,
    Version,
    Forget,
    Run(Option<(Seq<char>, Seq<char>)>),
}

impl View for Command {
    type V = CommandView;

    open spec fn view(&self) -> CommandView {
        match self {
            Command::Help => CommandView::Help,
            Command::Version => CommandView::Version,
            Command::Forget => CommandView::Forget,
            Command::Run(Some((a, b))) => CommandView::Run(Some((a@, b@))),
            Command::Run(None) => CommandView::Run(None),
        }
    }
}

/// The outcome of reading `argv` from position `i` on, with the coordinates seen so far.
/// Flags are read left to right; help, version and forget end the reading at once.
pub open spec fn read_args(
    argv: Seq<Seq<char>>,
    i: int,
    lat: Option<Seq<char>>,
    lon: Option<Seq<char>>,
) -> Result<CommandView, Seq<char>>
    decreases argv.len() - i,
{
    if i < 0 || i >= argv.len() {
        match (lat, lon) {
            (Some(a), Some(b)) => Ok(CommandView::Run(Some((a, b)))),
            (None, None) => Ok(CommandView::Run(None)),
            _ => Err("--lat and --lon must be given together"@),
        }
    } else {
        let a = argv[i];
        if a == "-h"@ || a == "--help"@ {
            Ok(CommandView::Help)
        } else if a == "-V"@ || a == "--version"@ {
            Ok(CommandView::Version)
        } else if a == "--lat"@ {
            if i + 1 >= argv.len() {
                Err("--lat requires a value"@)
            } else if is_number_literal(argv[i + 1]) {
                read_args(argv, i + 2, Some(argv[i + 1]), lon)
            } else {
                Err("invalid latitude: "@ + argv[i + 1])
            }
        } else if a == "--lon"@ {
            if i + 1 >= argv.len() {
                Err("--lon requires a value"@)
            } else if is_number_literal(argv[i + 1]) {
                read_args(argv, i + 2, lat, Some(argv[i + 1]))
            } else {
                Err("invalid longitude: "@ + argv[i + 1])
            }
        } else if a == "--forget"@ {
            Ok(CommandView::Forget)
        } else {
            Err("unknown argument: "@ + a)
        }
    }
}

pub open spec fn args_view(argv: Seq<String>) -> Seq<Seq<char>> {
    argv.map_values(|s: String| s@)
}

pub open spec fn command_result_view(r: Result<Command, String>) -> Result<CommandView, Seq<char>> {
    match r {
        Ok(c) => Ok(c@),
        Err(e) => Err(e@),
    }
}

/// Reads the arguments after the program name.
pub fn parse_args(argv: &Vec<String>) -> (r: Result<Command, String>)
    ensures
        command_result_view(r) == read_args(args_view(argv@), 0, None, None),
{
    let ghost args = args_view(argv@);
    let mut i: usize = 0;
    let mut lat: Option<String> = None;
    let mut lon: Option<String> = None;
    while i < argv.len()
        invariant
            i <= argv@.len(),
            args == args_view(argv@),
            read_args(args, 0, None, None) == read_args(
                args,
                i as int,
                match lat { Some(s) => Some(s@), None => None },
                match lon { Some(s) => Some(s@), None => None },
            ),
        decreases argv.len() - i,
    {
        let a = chars_of(argv[i].as_str());
        assert(a@ == args[i as int]);
        if same_text(a.as_slice(), "-h") || same_text(a.as_slice(), "--help") {
            return Ok(Command::Help);
        }
        if same_text(a.as_slice(), "-V") || same_text(a.as_slice(), "--version") {
            return Ok(Command::Version);
        }
        if same_text(a.as_slice(), "--lat") || same_text(a.as_slice(), "--lon") {
            let is_lat = same_text(a.as_slice(), "--lat");
            if i + 1 >= argv.len() {
                return Err(if is_lat {
                    owned("--lat requires a value")
                } else {
                    owned("--lon requires a value")
                });
            }
            let v = chars_of(argv[i + 1].as_str());
            assert(v@ == args[i + 1]);
            if !number_literal(v.as_slice()) {
                let mut e = if is_lat {
                    owned("invalid latitude: ")
                } else {
                    owned("invalid longitude: ")
                };
                push_str(&mut e, argv[i + 1].as_str());
                return Err(e);
            }
            if is_lat {
                lat = Some(argv[i + 1].clone());
            } else {
                lon = Some(argv[i + 1].clone());
            }
            i = i + 2;
        } else if same_text(a.as_slice(), "--forget") {
            return Ok(Command::Forget);
        } else {
            let mut e = owned("unknown argument: ");
            push_str(&mut e, argv[i].as_str());
            return Err(e);
        }
    }
    match (lat, lon) {
        (Some(a), Some(b)) => Ok(Command::Run(Some((a, b)))),
        (None, None) => Ok(Command::Run(None)),
        _ => Err(owned("--lat and --lon must be given together")),
    }
}

} // verus!
