//! The command line: play, autoplay, or import a beatmap folder.
use vstd::prelude::*;
use crate::text::{str_eq, str_chars, push_chars, string_from_chars};

verus! {

/// What the program was asked to do.
#[derive(Debug, Clone, PartialEq, Eq)]
pub enum CliCommand {
    Demo,
    DemoAutoplay,
    ImportOsu { folder: String },
}

pub open spec fn import_usage() -> Seq<char> {
    "usage: seythm --import-osu <folder>"@
}

pub open spec fn autoplay_usage() -> Seq<char> {
    "usage: seythm autoplay"@
}

/// The arguments after the program name.
pub open spec fn command_words(args: Seq<Seq<char>>) -> Seq<Seq<char>> {
    if args.len() == 0 {
        args
    } else {
        args.skip(1)
    }
}

/// Reads the command line, program name first: nothing after it plays, `autoplay`
/// watches the game play itself, `--import-osu <folder>` imports a beatmap folder.
pub fn parse_cli_command(args: &Vec<String>) -> (r: Result<CliCommand, String>)
    ensures
        ({
            let a = command_words(args@.map_values(|s: String| s@));
            &&& a.len() == 0 ==> r == Ok::<CliCommand, String>(CliCommand::Demo)
            &&& a.len() > 0 && a[0] == "--import-osu"@ && a.len() == 2 ==> (r matches Ok(
                CliCommand::ImportOsu { folder },
            ) && folder@ == a[1])
            &&& a.len() > 0 && a[0] == "--import-osu"@ && a.len() != 2 ==> (r matches Err(m)
                && m@ == import_usage())
            &&& a.len() > 0 && a[0] != "--import-osu"@ && a[0] == "autoplay"@ && a.len() == 1 ==> r
                == Ok::<CliCommand, String>(CliCommand::DemoAutoplay)
            &&& a.len() > 0 && a[0] != "--import-osu"@ && a[0] == "autoplay"@ && a.len() != 1 ==> (
            r matches Err(m) && m@ == autoplay_usage())
            &&& a.len() > 0 && a[0] != "--import-osu"@ && a[0] != "autoplay"@ ==> (r matches Err(m)
                && m@ == "unrecognized argument: "@ + a[0])
        }),
{
    let ghost a = command_words(args@.map_values(|s: String| s@));
    if args.len() <= 1 {
        return Ok(CliCommand::Demo);
    }
    assert(a[0] == args@[1]@);
    if str_eq(args[1].as_str(), "--import-osu") {
        if args.len() == 3 {
            assert(a[1] == args@[2]@);
            return Ok(CliCommand::ImportOsu { folder: args[2].clone() });
        }
        return Err("usage: seythm --import-osu <folder>".to_owned());
    }
    if str_eq(args[1].as_str(), "autoplay") {
        if args.len() == 2 {
            return Ok(CliCommand::DemoAutoplay);
        }
        return Err("usage: seythm autoplay".to_owned());
    }
    let mut msg = str_chars("unrecognized argument: ");
    let arg = str_chars(args[1].as_str());
    push_chars(&mut msg, &arg);
    Err(string_from_chars(msg.as_slice()))
}

} // verus!
