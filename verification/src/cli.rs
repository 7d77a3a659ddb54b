//! Reading the command line: the flags, the sort key and the target path.

use vstd::prelude::*;
use vstd::string::*;
use crate::order::SortKey;
use crate::render::{texts, Options};

verus! {

/// What a command line has settled so far, as mathematical values.
pub struct Settings {
    pub options: Options,
    pub sort_key: SortKey,
    pub path: Seq<char>,
}

/// What a listing was asked to do: the options, the sort key and the target
/// path.
#[derive(Debug)]
pub struct Invocation {
    pub options: Options,
    pub sort_key: SortKey,
    pub path: String,
}

impl View for Invocation {
    type V = Settings;

    open spec fn view(&self) -> Settings {
        Settings { options: self.options, sort_key: self.sort_key, path: self.path@ }
    }
}

/// What the command line asks for.
#[derive(Debug)]
pub enum Command {
    /// List a directory.
    List(Invocation),
    /// Show the help text and do nothing else.
    Help,
}

/// A command line that cannot be followed.
#[derive(Debug)]
pub enum UsageError {
    /// An argument that begins with two dashes and is no known option.
    UnknownLongOption(String),
    /// A letter behind a single dash that is no known flag.
    UnknownShortOption(char),
}

/// How reading a command line ends.
pub enum Outcome {
    List(Settings),
    Help,
    UnknownLongOption(Seq<char>),
    UnknownShortOption(char),
}

/// The outcome that a result of `parse_args` stands for.
pub open spec fn outcome_of(parsed: Result<Command, UsageError>) -> Outcome {
    match parsed {
        Ok(Command::List(invocation)) => Outcome::List(invocation@),
        Ok(Command::Help) => Outcome::Help,
        Err(UsageError::UnknownLongOption(arg)) => Outcome::UnknownLongOption(arg@),
        Err(UsageError::UnknownShortOption(flag)) => Outcome::UnknownShortOption(flag),
    }
}

/// The settings before any argument is read: nothing switched on, sorting by
/// name, listing the current directory.
pub open spec fn default_settings() -> Settings {
    Settings {
        options: Options {
            all: false,
            long_format: false,
            author: false,
            reverse: false,
            human: false,
        },
        sort_key: SortKey::Name,
        path: "."@,
    }
}

/// The settings after one flag letter; none where the letter is no flag.
pub open spec fn with_flag(settings: Settings, flag: char) -> Option<Settings> {
    if flag == 'a' {
        Some(Settings { options: Options { all: true, ..settings.options }, ..settings })
    } else if flag == 'l' {
        Some(Settings { options: Options { long_format: true, ..settings.options }, ..settings })
    } else if flag == 't' {
        Some(Settings { sort_key: SortKey::Time, ..settings })
    } else if flag == 's' {
        Some(Settings { sort_key: SortKey::Size, ..settings })
    } else if flag == 'r' {
        Some(Settings { options: Options { reverse: true, ..settings.options }, ..settings })
    } else if flag == 'h' {
        Some(Settings { options: Options { human: true, ..settings.options }, ..settings })
    } else {
        None
    }
}

/// The outcome of reading the flag letters of `arg` from place `from` on:
/// the settings after all of them, or the first letter that is no flag.
pub open spec fn with_flags(settings: Settings, arg: Seq<char>, from: int) -> Outcome
    decreases arg.len() - from,
{
    if from >= arg.len() {
        Outcome::List(settings)
    } else {
        match with_flag(settings, arg[from]) {
            Some(next) => with_flags(next, arg, from + 1),
            None => Outcome::UnknownShortOption(arg[from]),
        }
    }
}

/// Whether an argument begins with two dashes.
pub open spec fn is_long_option(arg: Seq<char>) -> bool {
    arg.len() >= 2 && arg[0] == '-' && arg[1] == '-'
}

/// The outcome of reading one argument: a long option is `--author` or
/// `--help` or unknown; an argument behind a single dash is a run of flag
/// letters; any other argument is the target path.
pub open spec fn with_arg(settings: Settings, arg: Seq<char>) -> Outcome {
    if is_long_option(arg) {
        if arg == "--author"@ {
            Outcome::List(
                Settings { options: Options { author: true, ..settings.options }, ..settings },
            )
        } else if arg == "--help"@ {
            Outcome::Help
        } else {
            Outcome::UnknownLongOption(arg)
        }
    } else if arg.len() >= 1 && arg[0] == '-' {
        with_flags(settings, arg, 1)
    } else {
        Outcome::List(Settings { path: arg, ..settings })
    }
}

/// The outcome of reading the arguments from place `from` on, one after the
/// other: the first that asks for help or cannot be followed ends the reading.
pub open spec fn parsed_from(args: Seq<Seq<char>>, settings: Settings, from: int) -> Outcome
    decreases args.len() - from,
{
    if from >= args.len() {
        Outcome::List(settings)
    } else {
        match with_arg(settings, args[from]) {
            Outcome::List(next) => parsed_from(args, next, from + 1),
            other => other,
        }
    }
}

/// The outcome of a whole command line, without the program's own name.
pub open spec fn command_line(args: Seq<Seq<char>>) -> Outcome {
    parsed_from(args, default_settings(), 0)
}

/// Reads a command line, given without the program's own name. Later
/// arguments win over earlier ones: the last sort flag gives the sort key and
/// the last plain argument the path.
pub fn parse_args(args: &Vec<String>) -> (parsed: Result<Command, UsageError>)
    ensures
        outcome_of(parsed) == command_line(texts(args@)),
{
    let mut options = Options {
        all: false,
        long_format: false,
        author: false,
        reverse: false,
        human: false,
    };
    let mut sort_key = SortKey::Name;
    let mut path = String::from_str(".");
    let mut at: usize = 0;
    while at < args.len()
        invariant
            at <= args.len(),
            command_line(texts(args@)) == parsed_from(
                texts(args@),
                Settings { options, sort_key, path: path@ },
                at as int,
            ),
        decreases args.len() - at,
    {
        let arg = args[at].as_str();
        assert(texts(args@)[at as int] == arg@);
        let len = arg.unicode_len();
        if len >= 2 && arg.get_char(0) == '-' && arg.get_char(1) == '-' {
            if args[at] == "--author".to_owned() {
                options.author = true;
            } else if args[at] == "--help".to_owned() {
                return Ok(Command::Help);
            } else {
                return Err(UsageError::UnknownLongOption(arg.to_owned()));
            }
        } else if len >= 1 && arg.get_char(0) == '-' {
            let ghost before = Settings { options, sort_key, path: path@ };
            let mut place: usize = 1;
            while place < len
                invariant
                    1 <= place <= len,
                    len == arg@.len(),
                    at < args.len(),
                    texts(args@)[at as int] == arg@,
                    command_line(texts(args@)) == parsed_from(texts(args@), before, at as int),
                    with_arg(before, arg@) == with_flags(before, arg@, 1),
                    with_flags(before, arg@, 1) == with_flags(
                        Settings { options, sort_key, path: path@ },
                        arg@,
                        place as int,
                    ),
                decreases len - place,
            {
                let flag = arg.get_char(place);
                if flag == 'a' {
                    options.all = true;
                } else if flag == 'l' {
                    options.long_format = true;
                } else if flag == 't' {
                    sort_key = SortKey::Time;
                } else if flag == 's' {
                    sort_key = SortKey::Size;
                } else if flag == 'r' {
                    options.reverse = true;
                } else if flag == 'h' {
                    options.human = true;
                } else {
                    return Err(UsageError::UnknownShortOption(flag));
                }
                place = place + 1;
            }
        } else {
            path = arg.to_owned();
        }
        at = at + 1;
    }
    Ok(Command::List(Invocation { options, sort_key, path }))
}

} // verus!
