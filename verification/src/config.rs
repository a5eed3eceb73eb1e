//! The settings of one benchmark and the rules a value must meet to become one.

use vstd::prelude::*;
use vstd::string::*;
use vstd::utf8::*;

verus! {

/// Number of runs when none is asked for.
pub const DEFAULT_RUN_COUNT: u32 = 5;

/// The settings of one benchmark: what to run, how often, and what to show besides the
/// summary. A value always names a command and asks for at least one run.
#[derive(Debug, PartialEq, Eq)]
pub struct BenchmarkConfig {
    command: String,
    arguments: Vec<String>,
    run_count: u32,
    verbose: bool,
    debug: bool,
}

/// What a `BenchmarkConfig` holds, as mathematical values.
pub struct ConfigView {
    pub command: Seq<char>,
    pub arguments: Seq<Seq<char>>,
    pub run_count: u32,
    pub verbose: bool,
    pub debug: bool,
}

impl ConfigView {
    /// A command is named and at least one run is asked for.
    pub open spec fn valid(self) -> bool {
        self.command.len() > 0 && self.run_count >= 1
    }
}

impl View for BenchmarkConfig {
    type V = ConfigView;

    closed spec fn view(&self) -> ConfigView {
        ConfigView {
            command: self.command@,
            arguments: self.arguments.deep_view(),
            run_count: self.run_count,
            verbose: self.verbose,
            debug: self.debug,
        }
    }
}

/// Why a set of inputs does not make a `BenchmarkConfig`.
#[derive(Debug, PartialEq, Eq)]
pub enum ConfigError {
    /// The option parser rejected the command line; its message is kept.
    Usage(String),
    /// The run count is not a positive integer that fits in 32 bits.
    InvalidRunCount,
    /// No command was named.
    MissingCommand,
}

/// A `ConfigError` as a mathematical value.
pub enum ConfigErrorView {
    Usage(Seq<char>),
    InvalidRunCount,
    MissingCommand,
}

impl View for ConfigError {
    type V = ConfigErrorView;

    open spec fn view(&self) -> ConfigErrorView {
        match self {
            ConfigError::Usage(message) => ConfigErrorView::Usage(message@),
            ConfigError::InvalidRunCount => ConfigErrorView::InvalidRunCount,
            ConfigError::MissingCommand => ConfigErrorView::MissingCommand,
        }
    }
}

/// The view of what a fallible constructor returned.
pub open spec fn outcome_view(outcome: Result<BenchmarkConfig, ConfigError>) -> Result<
    ConfigView,
    ConfigErrorView,
> {
    match outcome {
        Ok(config) => Ok(config@),
        Err(error) => Err(error@),
    }
}

/// What `BenchmarkConfig::new` makes of its arguments: the run count is judged first,
/// then the command.
pub open spec fn checked_config(
    command: Seq<char>,
    arguments: Seq<Seq<char>>,
    run_count: u32,
    verbose: bool,
    debug: bool,
) -> Result<ConfigView, ConfigErrorView> {
    if run_count == 0 {
        Err(ConfigErrorView::InvalidRunCount)
    } else if command.len() == 0 {
        Err(ConfigErrorView::MissingCommand)
    } else {
        Ok(ConfigView { command, arguments, run_count, verbose, debug })
    }
}

/// What `BenchmarkConfig::from_parts` makes of a parsed command line. The run count is
/// judged first: the text after the count option must denote one, and without the
/// option the count is `DEFAULT_RUN_COUNT`. Then the first free argument is the command
/// and the others, in order, are its arguments.
pub open spec fn config_of_parts(
    free: Seq<Seq<char>>,
    number: Option<Seq<char>>,
    verbose: bool,
    debug: bool,
) -> Result<ConfigView, ConfigErrorView> {
    let run_count = match number {
        Some(text) => run_count_of(text),
        None => Some(DEFAULT_RUN_COUNT),
    };
    match run_count {
        None => Err(ConfigErrorView::InvalidRunCount),
        Some(count) => if free.len() == 0 {
            Err(ConfigErrorView::MissingCommand)
        } else {
            checked_config(free[0], free.subrange(1, free.len() as int), count, verbose, debug)
        },
    }
}

impl BenchmarkConfig {
    /// Holds of every value of this type.
    #[verifier::type_invariant]
    pub open spec fn well_formed(self) -> bool {
        self@.valid()
    }

    /// Makes a configuration, or says which rule the arguments break.
    pub fn new(
        command: String,
        arguments: Vec<String>,
        run_count: u32,
        verbose: bool,
        debug: bool,
    ) -> (outcome: Result<BenchmarkConfig, ConfigError>)
        ensures
            outcome_view(outcome) == checked_config(
                command@,
                arguments.deep_view(),
                run_count,
                verbose,
                debug,
            ),
    {
        if run_count == 0 {
            Err(ConfigError::InvalidRunCount)
        } else if command.as_str().is_empty() {
            Err(ConfigError::MissingCommand)
        } else {
            Ok(BenchmarkConfig { command, arguments, run_count, verbose, debug })
        }
    }

    /// Makes a configuration from what an option parser found on the command line: the
    /// free arguments, the text given for the run count if any, and the two flags.
    pub fn from_parts(
        free: Vec<String>,
        number: Option<String>,
        verbose: bool,
        debug: bool,
    ) -> (outcome: Result<BenchmarkConfig, ConfigError>)
        ensures
            outcome_view(outcome) == config_of_parts(
                free.deep_view(),
                number.deep_view(),
                verbose,
                debug,
            ),
    {
        let run_count = match number {
            Some(text) => match parse_run_count(text.as_str()) {
                Some(count) => count,
                None => {
                    return Err(ConfigError::InvalidRunCount);
                },
            },
            None => DEFAULT_RUN_COUNT,
        };
        let mut arguments = free;
        if arguments.len() == 0 {
            return Err(ConfigError::MissingCommand);
        }
        let command = arguments.remove(0);
        assert(arguments.deep_view() =~= free.deep_view().subrange(1, free.len() as int));
        BenchmarkConfig::new(command, arguments, run_count, verbose, debug)
    }

    /// The command to invoke.
    pub fn command(&self) -> (command: &str)
        ensures
            command@ == self@.command,
            command@.len() > 0,
    {
        proof {
            use_type_invariant(self);
        }
        self.command.as_str()
    }

    /// The arguments handed to each invocation, in order.
    pub fn arguments(&self) -> (arguments: &Vec<String>)
        ensures
            arguments.deep_view() == self@.arguments,
    {
        &self.arguments
    }

    /// How many times the command is to be run.
    pub fn run_count(&self) -> (run_count: u32)
        ensures
            run_count == self@.run_count,
            run_count >= 1,
    {
        proof {
            use_type_invariant(self);
        }
        self.run_count
    }

    /// Whether each run's captured output is shown.
    pub fn verbose(&self) -> (verbose: bool)
        ensures
            verbose == self@.verbose,
    {
        self.verbose
    }

    /// Whether each run's timing is shown.
    pub fn debug(&self) -> (debug: bool)
        ensures
            debug == self@.debug,
    {
        self.debug
    }
}

/// True for the ten ASCII decimal digits.
pub open spec fn is_digit(c: char) -> bool {
    '0' <= c <= '9'
}

/// The number a decimal digit stands for.
pub open spec fn digit_value(c: char) -> nat {
    (c as nat - '0' as nat) as nat
}

/// True when every character of `digits` is a decimal digit.
pub open spec fn all_digits(digits: Seq<char>) -> bool {
    forall|i: int| 0 <= i < digits.len() ==> is_digit(#[trigger] digits[i])
}

/// The number that a sequence of decimal digits denotes, most significant digit first.
pub open spec fn decimal_value(digits: Seq<char>) -> nat
    decreases digits.len(),
{
    if digits.len() == 0 {
        0
    } else {
        10 * decimal_value(digits.drop_last()) + digit_value(digits.last())
    }
}

/// `text` without its leading plus sign, if it has one.
pub open spec fn unsigned_part(text: Seq<char>) -> Seq<char> {
    if text.len() > 0 && text[0] == '+' {
        text.subrange(1, text.len() as int)
    } else {
        text
    }
}

/// The run count that `text` denotes: an optional plus sign, then one or more decimal
/// digits whose value lies between 1 and `u32::MAX`. Any other text denotes none.
pub open spec fn run_count_of(text: Seq<char>) -> Option<u32> {
    let digits = unsigned_part(text);
    if digits.len() > 0 && all_digits(digits) && 1 <= decimal_value(digits) <= u32::MAX {
        Some(decimal_value(digits) as u32)
    } else {
        None
    }
}

/// Appending digits never makes the denoted number smaller.
proof fn lemma_decimal_value_grows(digits: Seq<char>, n: int)
    requires
        0 <= n <= digits.len(),
    ensures
        decimal_value(digits.take(n)) <= decimal_value(digits),
    decreases digits.len(),
{
    if n == digits.len() {
        assert(digits.take(n) =~= digits);
    } else {
        lemma_decimal_value_grows(digits.drop_last(), n);
        assert(digits.drop_last().take(n) =~= digits.take(n));
    }
}

/// In ASCII text each character is one byte of the encoding, so the plus sign and the
/// digits can be told from the bytes.
proof fn lemma_ascii_byte(text: Seq<char>, i: int)
    requires
        is_ascii_chars(text),
        0 <= i < text.len(),
    ensures
        encode_utf8(text).len() == text.len(),
        text[i] == '+' <==> encode_utf8(text)[i] == 43,
        is_digit(text[i]) <==> 48 <= encode_utf8(text)[i] <= 57,
        is_digit(text[i]) ==> digit_value(text[i]) == encode_utf8(text)[i] - 48,
{
    is_ascii_chars_encode_utf8(text);
}

/// Text with a character outside ASCII denotes no run count.
proof fn lemma_not_ascii_not_a_count(text: Seq<char>)
    requires
        !is_ascii_chars(text),
    ensures
        run_count_of(text) is None,
{
    let i = choose|i: int|
        0 <= i < text.len() && !('\0' <= #[trigger] text[i] <= '\u{7f}');
    if text[0] == '+' {
        assert(unsigned_part(text)[i - 1] == text[i]);
    }
}

/// Reads a run count from text, as `run_count_of` defines it; a count is never zero.
pub fn parse_run_count(text: &str) -> (count: Option<u32>)
    ensures
        count == run_count_of(text@),
        count matches Some(runs) ==> runs >= 1,
{
    if !text.is_ascii() {
        proof {
            lemma_not_ascii_not_a_count(text@);
        }
        return None;
    }
    let bytes = text.as_bytes();
    let len = bytes.len();
    proof {
        is_ascii_chars_encode_utf8(text@);
        if len > 0 {
            lemma_ascii_byte(text@, 0);
        }
    }
    let start: usize = if len > 0 && bytes[0] == 43u8 { 1 } else { 0 };
    let ghost digits = unsigned_part(text@);
    let mut value: u64 = 0;
    let mut i: usize = start;
    while i < len
        invariant
            start <= i <= len,
            is_ascii_chars(text@),
            bytes@ == encode_utf8(text@),
            len == text@.len(),
            digits == unsigned_part(text@),
            digits == text@.subrange(start as int, len as int),
            all_digits(digits.take(i - start)),
            value == decimal_value(digits.take(i - start)),
            value <= u32::MAX,
        decreases len - i,
    {
        let ghost before = digits.take(i - start);
        let ghost upto = digits.take(i - start + 1);
        proof {
            lemma_ascii_byte(text@, i as int);
            assert(upto.drop_last() =~= before);
        }
        let byte = bytes[i];
        if byte < 48u8 || byte > 57u8 {
            assert(!is_digit(digits[i - start]));
            return None;
        }
        value = value * 10 + (byte - 48u8) as u64;
        if value > 0xffff_ffffu64 {
            proof {
                lemma_decimal_value_grows(digits, i - start + 1);
            }
            return None;
        }
        assert(all_digits(upto)) by {
            assert forall|j: int| 0 <= j < upto.len() implies is_digit(#[trigger] upto[j]) by {
                if j < before.len() {
                }
            }
        }
        i = i + 1;
    }
    assert(digits.take(i - start) =~= digits);
    if value == 0 {
        None
    } else {
        Some(value as u32)
    }
}

} // verus!
