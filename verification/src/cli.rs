//! Command-line validation: turning the raw mode and duration options into a
//! validated command, with an exact account of every rejection.

use vstd::prelude::*;
use vstd::string::StrSliceExecFns;
use vstd::string::StringExecFns;
use crate::digits::all_digits;
use crate::digits::digits_val;
use crate::digits::lemma_digits_val_nonneg;
use crate::digits::parse_u64;

verus! {

/// A validated invocation: sample for a number of seconds, or read back the
/// persisted result.
#[derive(Clone, Copy, Debug, PartialEq, Eq, Structural)]
pub enum Command {
    Cache { seconds: u64 },
    Read,
}

/// Why an invocation was rejected. All variants but `UnknownMode` are usage
/// errors that call for a usage message and a failing exit.
#[derive(Clone, Copy, Debug, PartialEq, Eq, Structural)]
pub enum CliError {
    MissingMode,
    MissingDuration,
    InvalidDuration,
    UnknownMode,
}

/// The view of an optional string.
pub open spec fn opt_view(o: Option<&str>) -> Option<Seq<char>> {
    match o {
        Some(s) => Some(s@),
        None => None,
    }
}

/// What an invocation means. The mode must be given and be `cache` or
/// `read`; `cache` needs a duration that is a nonempty run of digits whose
/// value fits in `u64`.
pub open spec fn spec_command(mode: Option<Seq<char>>, times: Option<Seq<char>>) -> Result<
    Command,
    CliError,
> {
    match mode {
        None => Err(CliError::MissingMode),
        Some(m) => if m == "cache"@ {
            match times {
                None => Err(CliError::MissingDuration),
                Some(t) => if t.len() > 0 && all_digits(t) && digits_val(t) <= u64::MAX {
                    Ok(Command::Cache { seconds: digits_val(t) as u64 })
                } else {
                    Err(CliError::InvalidDuration)
                },
            }
        } else if m == "read"@ {
            Ok(Command::Read)
        } else {
            Err(CliError::UnknownMode)
        },
    }
}

/// Two string slices hold the same characters.
pub fn str_eq(a: &str, b: &str) -> (r: bool)
    ensures
        r <==> a@ == b@,
{
    let la = a.unicode_len();
    let lb = b.unicode_len();
    if la != lb {
        return false;
    }
    let mut i: usize = 0;
    while i < la
        invariant
            la == a@.len(),
            la == b@.len(),
            0 <= i <= la,
            forall|j: int| 0 <= j < i ==> a@[j] == b@[j],
        decreases la - i,
    {
        if a.get_char(i) != b.get_char(i) {
            return false;
        }
        i = i + 1;
    }
    proof {
        assert(a@ =~= b@);
    }
    true
}

/// Validate the raw mode and duration options. The result is exactly what
/// `spec_command` says of them; in particular, mode `cache` without a
/// duration is rejected before anything else happens.
pub fn parse_command(mode: Option<&str>, times: Option<&str>) -> (r: Result<Command, CliError>)
    ensures
        r == spec_command(opt_view(mode), opt_view(times)),
{
    match mode {
        None => Err(CliError::MissingMode),
        Some(m) => {
            if str_eq(m, "cache") {
                match times {
                    None => Err(CliError::MissingDuration),
                    Some(t) => {
                        match parse_u64(t) {
                            Some(v) => {
                                proof {
                                    lemma_digits_val_nonneg(t@);
                                }
                                Ok(Command::Cache { seconds: v })
                            },
                            None => Err(CliError::InvalidDuration),
                        }
                    },
                }
            } else if str_eq(m, "read") {
                Ok(Command::Read)
            } else {
                Err(CliError::UnknownMode)
            }
        },
    }
}

/// What the error reads as. `UnknownMode` keeps the wording the program has
/// always printed for an unrecognized mode.
pub open spec fn spec_cli_message(e: CliError) -> Seq<char> {
    match e {
        CliError::MissingMode => "Usage error: a mode is required ('cache' or 'read')"@,
        CliError::MissingDuration => "Usage error: mode 'cache' requires a duration in seconds"@,
        CliError::InvalidDuration => "Usage error: the duration must be a whole number of seconds"@,
        CliError::UnknownMode => "Invalid mode. Supported modes are 'cache' and 'read'"@,
    }
}

impl CliError {
    /// The message to show for this error.
    pub fn message(&self) -> (r: String)
        ensures
            r@ == spec_cli_message(*self),
    {
        match self {
            CliError::MissingMode => String::from_str(
                "Usage error: a mode is required ('cache' or 'read')",
            ),
            CliError::MissingDuration => String::from_str(
                "Usage error: mode 'cache' requires a duration in seconds",
            ),
            CliError::InvalidDuration => String::from_str(
                "Usage error: the duration must be a whole number of seconds",
            ),
            CliError::UnknownMode => String::from_str(
                "Invalid mode. Supported modes are 'cache' and 'read'",
            ),
        }
    }

    /// Whether the error is a usage error, wanting a usage message and a
    /// failing exit, rather than the unknown-mode report.
    pub fn is_usage(&self) -> (r: bool)
        ensures
            r <==> *self != CliError::UnknownMode,
    {
        match self {
            CliError::UnknownMode => false,
            _ => true,
        }
    }
}

} // verus!
