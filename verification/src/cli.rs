//! The command line: which discipline to report on, and where the driver list is.

use crate::text::decimal;
use crate::text::push_decimal;
use crate::text::same_text;
use vstd::prelude::*;
use vstd::string::*;

verus! {

/// The disciplines that a license can be for.
#[derive(Debug, Clone, Copy, PartialEq, Eq, Structural)]
pub enum LicenseType {
    Road,
    Oval,
    DirtOval,
    DirtRoad,
}

/// What the command line asks for.
#[derive(Debug, Clone, PartialEq, Eq)]
pub struct Args {
    /// Discipline whose license is reported.
    pub mode: LicenseType,
    /// Path of the driver list.
    pub drivers: String,
}

/// The arguments as plain values.
pub struct ArgsView {
    pub mode: LicenseType,
    pub drivers: Seq<char>,
}

impl View for Args {
    type V = ArgsView;

    open spec fn view(&self) -> ArgsView {
        ArgsView { mode: self.mode, drivers: self.drivers@ }
    }
}

/// Why a command line is refused. A position counts the arguments from zero.
#[derive(Debug, Clone, Copy, PartialEq, Eq, Structural)]
pub enum CliError {
    /// No discipline was given.
    MissingMode,
    /// The argument at this position is no option of the program.
    UnknownArgument(usize),
    /// The option at this position is the last argument and has no value.
    MissingValue(usize),
    /// The option at this position was given before.
    Repeated(usize),
    /// The option at this position names no discipline.
    InvalidMode(usize),
}

impl CliError {
    /// The message that describes the refusal.
    pub open spec fn message_text(self) -> Seq<char> {
        match self {
            CliError::MissingMode => "the option --mode <road|oval|dirt_road|dirt_oval> is required"@,
            CliError::UnknownArgument(at) => "unexpected argument at position "@ + decimal(at as nat),
            CliError::MissingValue(at) => "no value for the option at position "@ + decimal(at as nat),
            CliError::Repeated(at) => "option given twice at position "@ + decimal(at as nat),
            CliError::InvalidMode(at) => "unknown discipline for the option at position "@ + decimal(
                at as nat,
            ),
        }
    }

    /// The message that describes the refusal.
    pub fn message(&self) -> (message: String)
        ensures
            message@ == self.message_text(),
    {
        let (mut message, at): (String, usize) = match self {
            CliError::MissingMode => {
                return "the option --mode <road|oval|dirt_road|dirt_oval> is required".to_owned();
            },
            CliError::UnknownArgument(at) => ("unexpected argument at position ".to_owned(), *at),
            CliError::MissingValue(at) => ("no value for the option at position ".to_owned(), *at),
            CliError::Repeated(at) => ("option given twice at position ".to_owned(), *at),
            CliError::InvalidMode(at) => ("unknown discipline for the option at position ".to_owned(), *at),
        };
        push_decimal(&mut message, at as u64);
        message
    }
}

/// Path of the driver list where the command line names none.
pub const DEFAULT_DRIVERS: &'static str = "drivers.csv";

impl LicenseType {
    /// The tag under which the service files licenses of the discipline, which
    /// is also the name that selects the discipline on the command line.
    pub open spec fn tag(self) -> Seq<char> {
        match self {
            LicenseType::Road => "road"@,
            LicenseType::Oval => "oval"@,
            LicenseType::DirtOval => "dirt_oval"@,
            LicenseType::DirtRoad => "dirt_road"@,
        }
    }

    /// The discipline that a tag stands for.
    pub open spec fn of_tag(tag: Seq<char>) -> Option<LicenseType> {
        if tag == "road"@ {
            Some(LicenseType::Road)
        } else if tag == "oval"@ {
            Some(LicenseType::Oval)
        } else if tag == "dirt_oval"@ {
            Some(LicenseType::DirtOval)
        } else if tag == "dirt_road"@ {
            Some(LicenseType::DirtRoad)
        } else {
            None
        }
    }

    /// The tag of the discipline.
    pub fn category(self) -> (tag: &'static str)
        ensures
            tag@ == self.tag(),
    {
        match self {
            LicenseType::Road => "road",
            LicenseType::Oval => "oval",
            LicenseType::DirtOval => "dirt_oval",
            LicenseType::DirtRoad => "dirt_road",
        }
    }

    /// Reads a discipline from its tag.
    pub fn from_tag(tag: &str) -> (mode: Option<LicenseType>)
        ensures
            mode == Self::of_tag(tag@),
    {
        if same_text(tag, "road") {
            Some(LicenseType::Road)
        } else if same_text(tag, "oval") {
            Some(LicenseType::Oval)
        } else if same_text(tag, "dirt_oval") {
            Some(LicenseType::DirtOval)
        } else if same_text(tag, "dirt_road") {
            Some(LicenseType::DirtRoad)
        } else {
            None
        }
    }

    /// Every discipline is read back from its own tag, and the four tags differ.
    pub proof fn lemma_tag_round_trip(self)
        ensures
            Self::of_tag(self.tag()) == Some(self),
    {
        reveal_strlit("road");
        reveal_strlit("oval");
        reveal_strlit("dirt_oval");
        reveal_strlit("dirt_road");
        assert("road"@[0] == 'r');
        assert("oval"@[0] == 'o');
        assert("dirt_oval"@[5] == 'o');
        assert("dirt_road"@[5] == 'r');
    }
}

/// The options of the program.
#[derive(Debug, Clone, Copy, PartialEq, Eq, Structural)]
pub enum Flag {
    /// `-m`, `--mode`: the discipline. Required.
    Mode,
    /// `-d`, `--drivers`: the path of the driver list.
    Drivers,
}

/// `token` begins with `prefix`.
pub open spec fn has_prefix(token: Seq<char>, prefix: Seq<char>) -> bool {
    prefix.len() <= token.len() && token.subrange(0, prefix.len() as int) == prefix
}

/// How an argument reads as an option: which option it is, and the value
/// where the argument carries it behind `=`. `None` for any other argument.
pub open spec fn option_of(token: Seq<char>) -> Option<(Flag, Option<Seq<char>>)> {
    if token == "-m"@ || token == "--mode"@ {
        Some((Flag::Mode, None))
    } else if token == "-d"@ || token == "--drivers"@ {
        Some((Flag::Drivers, None))
    } else if has_prefix(token, "--mode="@) {
        Some((Flag::Mode, Some(token.skip("--mode="@.len() as int))))
    } else if has_prefix(token, "--drivers="@) {
        Some((Flag::Drivers, Some(token.skip("--drivers="@.len() as int))))
    } else {
        None
    }
}

/// Reads the arguments from position `at` on, with what the arguments before
/// it have settled. Arguments are read from left to right and the first
/// fault decides. An option takes its value from behind `=` or from the next
/// argument, and may be given once.
pub open spec fn parse_from(
    args: Seq<Seq<char>>,
    at: nat,
    mode: Option<LicenseType>,
    drivers: Option<Seq<char>>,
) -> Result<ArgsView, CliError>
    decreases args.len() - at,
{
    if at >= args.len() {
        match mode {
            None => Err(CliError::MissingMode),
            Some(mode) => Ok(
                ArgsView {
                    mode,
                    drivers: match drivers {
                        Some(path) => path,
                        None => DEFAULT_DRIVERS@,
                    },
                },
            ),
        }
    } else {
        match option_of(args[at as int]) {
            None => Err(CliError::UnknownArgument(at as usize)),
            Some((flag, inline)) => {
                let given = match flag {
                    Flag::Mode => mode is Some,
                    Flag::Drivers => drivers is Some,
                };
                if given {
                    Err(CliError::Repeated(at as usize))
                } else if inline is None && at + 1 >= args.len() {
                    Err(CliError::MissingValue(at as usize))
                } else {
                    let value = match inline {
                        Some(value) => value,
                        None => args[at as int + 1],
                    };
                    let next = if inline is Some {
                        at + 1
                    } else {
                        at + 2
                    };
                    match flag {
                        Flag::Mode => match LicenseType::of_tag(value) {
                            None => Err(CliError::InvalidMode(at as usize)),
                            Some(mode) => parse_from(args, next, Some(mode), drivers),
                        },
                        Flag::Drivers => parse_from(args, next, mode, Some(value)),
                    }
                }
            },
        }
    }
}

/// What a command line asks for, or why it is refused.
pub open spec fn parse_args(args: Seq<Seq<char>>) -> Result<ArgsView, CliError> {
    parse_from(args, 0, None, None)
}

/// The rest of `token` behind `prefix`, where it begins with it.
fn strip_prefix(token: &str, prefix: &str) -> (rest: Option<String>)
    ensures
        rest is Some <==> has_prefix(token@, prefix@),
        rest matches Some(text) ==> text@ == token@.skip(prefix@.len() as int),
{
    let n: usize = token.unicode_len();
    let p: usize = prefix.unicode_len();
    if n < p {
        return None;
    }
    if same_text(token.substring_char(0, p), prefix) {
        let rest = token.substring_char(p, n).to_owned();
        assert(rest@ =~= token@.skip(p as int));
        Some(rest)
    } else {
        None
    }
}

/// Reads an argument as an option.
fn read_option(token: &str) -> (option: Option<(Flag, Option<String>)>)
    ensures
        match option {
            None => option_of(token@) is None,
            Some((flag, inline)) => option_of(token@) == Some(
                (
                    flag,
                    match inline {
                        Some(value) => Some(value@),
                        None => None,
                    },
                ),
            ),
        },
{
    if same_text(token, "-m") || same_text(token, "--mode") {
        return Some((Flag::Mode, None));
    }
    if same_text(token, "-d") || same_text(token, "--drivers") {
        return Some((Flag::Drivers, None));
    }
    match strip_prefix(token, "--mode=") {
        Some(value) => Some((Flag::Mode, Some(value))),
        None => match strip_prefix(token, "--drivers=") {
            Some(value) => Some((Flag::Drivers, Some(value))),
            None => None,
        },
    }
}

/// Reads the command line, given as the arguments behind the program's name.
pub fn parse(args: &Vec<String>) -> (parsed: Result<Args, CliError>)
    ensures
        match parsed {
            Ok(read) => parse_args(args.deep_view()) == Ok::<ArgsView, CliError>(read@),
            Err(e) => parse_args(args.deep_view()) == Err::<ArgsView, CliError>(e),
        },
{
    let ghost all = args.deep_view();
    let mut mode: Option<LicenseType> = None;
    let mut drivers: Option<String> = None;
    let mut at: usize = 0;
    while at < args.len()
        invariant
            at <= args.len(),
            all == args.deep_view(),
            parse_args(all) == parse_from(
                all,
                at as nat,
                mode,
                match drivers {
                    Some(path) => Some(path@),
                    None => None,
                },
            ),
        decreases args.len() - at,
    {
        assert(all[at as int] == args[at as int]@);
        let (flag, inline) = match read_option(args[at].as_str()) {
            None => {
                return Err(CliError::UnknownArgument(at));
            },
            Some(option) => option,
        };
        let given = match flag {
            Flag::Mode => mode.is_some(),
            Flag::Drivers => drivers.is_some(),
        };
        if given {
            return Err(CliError::Repeated(at));
        }
        let here: usize = at;
        let value: String = match inline {
            Some(value) => {
                at = at + 1;
                value
            },
            None => {
                if args.len() - at < 2 {
                    return Err(CliError::MissingValue(at));
                }
                assert(all[at as int + 1] == args[at as int + 1]@);
                let value = args[at + 1].clone();
                at = at + 2;
                value
            },
        };
        match flag {
            Flag::Mode => match LicenseType::from_tag(value.as_str()) {
                None => {
                    return Err(CliError::InvalidMode(here));
                },
                Some(read) => {
                    mode = Some(read);
                },
            },
            Flag::Drivers => {
                drivers = Some(value);
            },
        }
    }
    match mode {
        None => Err(CliError::MissingMode),
        Some(mode) => {
            let drivers = match drivers {
                Some(path) => path,
                None => DEFAULT_DRIVERS.to_owned(),
            };
            Ok(Args { mode, drivers })
        },
    }
}

} // verus!
