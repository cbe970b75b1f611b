use vstd::prelude::*;

verus! {

/// The value of a string of decimal digits, most significant first.
pub open spec fn decimal_value(s: Seq<char>) -> int
    decreases s.len(),
{
    if s.len() == 0 {
        0
    } else {
        decimal_value(s.drop_last()) * 10 + (s.last() as int - '0' as int)
    }
}

pub open spec fn all_decimal_digits(s: Seq<char>) -> bool {
    forall|i: int| 0 <= i < s.len() ==> '0' <= #[trigger] s[i] <= '9'
}

/// What `usize`'s `FromStr` reads: an optional `+` sign followed by one or
/// more decimal digits whose value fits in a `usize`; nothing else parses.
pub open spec fn usize_from_decimal(s: Seq<char>) -> Option<usize> {
    let digits = if s.len() > 0 && s[0] == '+' {
        s.skip(1)
    } else {
        s
    };
    if digits.len() > 0 && all_decimal_digits(digits) && decimal_value(digits) <= usize::MAX {
        Some(decimal_value(digits) as usize)
    } else {
        None
    }
}

/// Relies on `str::parse::<usize>`, whose documentation accepts exactly an
/// optional `+` followed by digits, and reports an overflow as an error.
#[verifier::external_body]
fn parse_usize(s: &str) -> (r: Option<usize>)
    ensures
        r == usize_from_decimal(s@),
{
    s.parse::<usize>().ok()
}

/// The command line of the renderer: a scene file and an optional worker count.
#[derive(Debug, PartialEq, Eq)]
pub struct ProgramArgs {
    pub file_path: String,
    /// Requested number of workers; `0` when none was given.
    pub job_count: usize,
}

/// Why a command line was refused.
#[derive(Debug, Clone, Copy, PartialEq, Eq, Structural)]
pub enum ArgsError {
    /// Not a program name, a scene file and at most one worker count.
    Usage,
    /// The worker count is not an unsigned number.
    InvalidJobCount,
}

/// Reads the command line `args`, program name first.
pub fn parse_args(args: &Vec<String>) -> (r: Result<ProgramArgs, ArgsError>)
    ensures
        args@.len() != 2 && args@.len() != 3 <==> r == Err::<ProgramArgs, ArgsError>(
            ArgsError::Usage,
        ),
        args@.len() == 2 ==> (r matches Ok(a) && a.file_path@ == args@[1]@ && a.job_count == 0),
        args@.len() == 3 ==> match usize_from_decimal(args@[2]@) {
            Some(n) => (r matches Ok(a) && a.file_path@ == args@[1]@ && a.job_count == n),
            None => r == Err::<ProgramArgs, ArgsError>(ArgsError::InvalidJobCount),
        },
{
    let n = args.len();
    if n != 2 && n != 3 {
        Err(ArgsError::Usage)
    } else if n == 2 {
        Ok(ProgramArgs { file_path: args[1].clone(), job_count: 0 })
    } else {
        match parse_usize(args[2].as_str()) {
            Some(job_count) => Ok(ProgramArgs { file_path: args[1].clone(), job_count }),
            None => Err(ArgsError::InvalidJobCount),
        }
    }
}

} // verus!
