//! Reading a configuration from command-line arguments. The option syntax is that of the
//! `getopts` crate, which does the parsing; its behaviour is stated here and not proved.

use crate::config::{
    config_of_parts, outcome_view, BenchmarkConfig, ConfigError, ConfigErrorView, ConfigView,
};
use vstd::prelude::*;

verus! {

/// `getopts::Options`, the set of options a parser knows.
#[verifier::external_type_specification]
#[verifier::external_body]
pub struct ExOptions(getopts::Options);

/// `getopts::Matches`, what a successful parse found.
#[verifier::external_type_specification]
#[verifier::external_body]
pub struct ExMatches(getopts::Matches);

/// `getopts::Fail`, why a parse failed.
#[verifier::external_type_specification]
#[verifier::external_body]
pub struct ExFail(getopts::Fail);

/// The option groups that `options` holds, in the order they were added: for each its
/// short name, its long name, and whether it takes a value.
pub uninterp spec fn declared(options: getopts::Options) -> Seq<(Seq<char>, Seq<char>, bool)>;

/// True when `options` parses in the crate's default manner (free arguments may stand
/// anywhere, long options need two dashes) and each of its groups may be given at most
/// once and either always or never takes a value.
pub uninterp spec fn conventional(options: getopts::Options) -> bool;

/// The free arguments that `matches` holds, in command-line order.
pub uninterp spec fn free_arguments(matches: getopts::Matches) -> Seq<Seq<char>>;

/// For each option name that `matches` knows, short or long, the occurrences of that
/// option on the command line in order, each with the value given to it if any.
pub uninterp spec fn occurrences(matches: getopts::Matches) -> Map<
    Seq<char>,
    Seq<Option<Seq<char>>>,
>;

/// The message that `Fail`'s `Display` impl writes for `fail`.
pub uninterp spec fn fail_text(fail: getopts::Fail) -> Seq<char>;

/// What `getopts::Options::parse` returns for `args` when the options are conventional
/// and hold `groups`, as plain values: see `line_view`.
pub uninterp spec fn parse_outcome(
    groups: Seq<(Seq<char>, Seq<char>, bool)>,
    args: Seq<Seq<char>>,
) -> Result<(Seq<Seq<char>>, Map<Seq<char>, Seq<Option<Seq<char>>>>), Seq<char>>;

/// What a parse returned, as plain values: the free arguments and the occurrences of
/// each option, or the message of the failure.
pub open spec fn line_view(found: Result<getopts::Matches, getopts::Fail>) -> Result<
    (Seq<Seq<char>>, Map<Seq<char>, Seq<Option<Seq<char>>>>),
    Seq<char>,
> {
    match found {
        Ok(matches) => Ok((free_arguments(matches), occurrences(matches))),
        Err(fail) => Err(fail_text(fail)),
    }
}

/// The names that `getopts` accepts for a group: the short name is empty or one ASCII
/// character, and the long name is not a single character.
pub open spec fn acceptable_names(short_name: Seq<char>, long_name: Seq<char>) -> bool {
    &&& short_name.len() == 0 || (short_name.len() == 1 && short_name[0] <= '\u{7f}')
    &&& long_name.len() != 1
}

/// Every group has a short or a long name.
pub open spec fn all_named(groups: Seq<(Seq<char>, Seq<char>, bool)>) -> bool {
    forall|i: int|
        0 <= i < groups.len() ==> (#[trigger] groups[i]).0.len() > 0 || groups[i].1.len() > 0
}

/// Every name of every group is a key of `found`.
pub open spec fn knows_all(
    found: Map<Seq<char>, Seq<Option<Seq<char>>>>,
    groups: Seq<(Seq<char>, Seq<char>, bool)>,
) -> bool {
    forall|i: int|
        0 <= i < groups.len() ==> {
            &&& (#[trigger] groups[i]).0.len() > 0 ==> found.dom().contains(groups[i].0)
            &&& groups[i].1.len() > 0 ==> found.dom().contains(groups[i].1)
        }
}

/// `getopts::Options::new`: the options it returns hold no group and are conventional.
pub assume_specification[ getopts::Options::new ]() -> (options: getopts::Options)
    ensures
        declared(options) == Seq::<(Seq<char>, Seq<char>, bool)>::empty(),
        conventional(options),
;

/// `getopts::Options::optopt`: after the groups already there it adds one with these
/// names that takes a value and may be given at most once, and changes nothing else.
/// It panics on names that are not acceptable, which `requires` leaves out.
#[verifier::external_body]
fn add_value_option(
    options: &mut getopts::Options,
    short_name: &str,
    long_name: &str,
    description: &str,
    hint: &str,
)
    requires
        acceptable_names(short_name@, long_name@),
    ensures
        declared(*final(options)) == declared(*old(options)).push(
            (short_name@, long_name@, true),
        ),
        conventional(*final(options)) == conventional(*old(options)),
{
    options.optopt(short_name, long_name, description, hint);
}

/// `getopts::Options::optflag`: after the groups already there it adds one with these
/// names that takes no value and may be given at most once, and changes nothing else.
/// It panics on names that are not acceptable, which `requires` leaves out.
#[verifier::external_body]
fn add_flag(options: &mut getopts::Options, short_name: &str, long_name: &str, description: &str)
    requires
        acceptable_names(short_name@, long_name@),
    ensures
        declared(*final(options)) == declared(*old(options)).push(
            (short_name@, long_name@, false),
        ),
        conventional(*final(options)) == conventional(*old(options)),
{
    options.optflag(short_name, long_name, description);
}

/// `getopts::Options::parse`: for conventional options, what it returns depends on the
/// groups and the arguments alone, and after a success every name of every group can be
/// asked of the matches. It panics on a group that has neither name, which `requires`
/// leaves out.
#[verifier::external_body]
fn parse_line(options: &getopts::Options, args: &Vec<String>) -> (found: Result<
    getopts::Matches,
    getopts::Fail,
>)
    requires
        conventional(*options),
        all_named(declared(*options)),
    ensures
        line_view(found) == parse_outcome(declared(*options), args.deep_view()),
        found matches Ok(matches) ==> knows_all(occurrences(matches), declared(*options)),
{
    options.parse(args)
}

/// `getopts::Matches::opt_present`: whether the option occurred. It panics on a name
/// that the matches do not know, which `requires` leaves out.
pub assume_specification[ getopts::Matches::opt_present ](
    matches: &getopts::Matches,
    name: &str,
) -> (present: bool)
    requires
        occurrences(*matches).dom().contains(name@),
    ensures
        present == given(occurrences(*matches), name@),
;

/// `getopts::Matches::opt_str`: the value given to the first occurrence of the option,
/// if there is an occurrence and it has a value. It panics on a name that the matches
/// do not know, which `requires` leaves out.
pub assume_specification[ getopts::Matches::opt_str ](
    matches: &getopts::Matches,
    name: &str,
) -> (value: Option<String>)
    requires
        occurrences(*matches).dom().contains(name@),
    ensures
        value.deep_view() == first_value(occurrences(*matches), name@),
;

/// The public field `free` of `getopts::Matches`, cloned: the free arguments.
#[verifier::external_body]
fn free_of(matches: &getopts::Matches) -> (free: Vec<String>)
    ensures
        free.deep_view() == free_arguments(*matches),
{
    matches.free.clone()
}

/// `to_string` on a `getopts::Fail`: the message that its `Display` impl writes.
#[verifier::external_body]
fn message_of(fail: &getopts::Fail) -> (message: String)
    ensures
        message@ == fail_text(*fail),
{
    fail.to_string()
}

/// The option occurred at least once.
pub open spec fn given(found: Map<Seq<char>, Seq<Option<Seq<char>>>>, name: Seq<char>) -> bool {
    found[name].len() > 0
}

/// The value given to the first occurrence of the option, if any.
pub open spec fn first_value(
    found: Map<Seq<char>, Seq<Option<Seq<char>>>>,
    name: Seq<char>,
) -> Option<Seq<char>> {
    if found[name].len() > 0 {
        found[name][0]
    } else {
        None
    }
}

/// The options of the command line: `-n NUM` or `--number NUM` sets the run count,
/// `-d` or `--debug` shows timings, `-v` or `--verbose` shows the command's output.
pub open spec fn option_groups() -> Seq<(Seq<char>, Seq<char>, bool)> {
    seq![("n"@, "number"@, true), ("d"@, "debug"@, false), ("v"@, "verbose"@, false)]
}

/// The configuration that a parsed command line stands for. A failed parse is a usage
/// error with the parser's message.
pub open spec fn config_of_line(
    line: Result<(Seq<Seq<char>>, Map<Seq<char>, Seq<Option<Seq<char>>>>), Seq<char>>,
) -> Result<ConfigView, ConfigErrorView> {
    match line {
        Ok((free, found)) => config_of_parts(
            free,
            first_value(found, "n"@),
            given(found, "v"@),
            given(found, "d"@),
        ),
        Err(message) => Err(ConfigErrorView::Usage(message)),
    }
}

/// Reads a configuration from the arguments that follow the program's name.
pub fn from_args(args: &Vec<String>) -> (outcome: Result<BenchmarkConfig, ConfigError>)
    ensures
        outcome_view(outcome) == config_of_line(
            parse_outcome(option_groups(), args.deep_view()),
        ),
{
    proof {
        reveal_strlit("n");
        reveal_strlit("number");
        reveal_strlit("d");
        reveal_strlit("debug");
        reveal_strlit("v");
        reveal_strlit("verbose");
    }
    let mut options = getopts::Options::new();
    add_value_option(&mut options, "n", "number", "set number of runs", "NUM");
    add_flag(&mut options, "d", "debug", "enable debug logging");
    add_flag(&mut options, "v", "verbose", "log the output of the ran commands to stdout");
    assert(declared(options) =~= option_groups());
    match parse_line(&options, args) {
        Ok(matches) => {
            let debug = matches.opt_present("d");
            let number = matches.opt_str("n");
            let verbose = matches.opt_present("v");
            BenchmarkConfig::from_parts(free_of(&matches), number, verbose, debug)
        },
        Err(fail) => Err(ConfigError::Usage(message_of(&fail))),
    }
}

} // verus!
