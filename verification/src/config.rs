//! Resolution of the input source and the checks that guard continuous mode.

use vstd::prelude::*;
use crate::AppError;

verus! {

/// Where one run reads its lines from.
pub enum Source {
    /// Redirected standard input.
    Stdin,
    /// A named local file.
    LogFile(String),
}

/// Resolves which source to read: an explicitly given path wins; otherwise
/// standard input is used when it is redirected, and a terminal is refused.
pub fn resolve_source(access_log: &Option<String>, stdin_is_tty: bool) -> (r: Result<
    Source,
    AppError,
>)
    ensures
        match access_log {
            Option::Some(p) => r matches Ok(s) && s matches Source::LogFile(q) && q@ == p@,
            Option::None => if stdin_is_tty {
                r matches Err(e) && e matches AppError::Config(m) && m@ == "STDIN is a TTY"@
            } else {
                r matches Ok(s) && s is Stdin
            },
        },
{
    match access_log {
        Option::Some(p) => Ok(Source::LogFile(p.clone())),
        Option::None => {
            if stdin_is_tty {
                Err(AppError::Config("STDIN is a TTY".to_owned()))
            } else {
                Ok(Source::Stdin)
            }
        },
    }
}

/// Continuous mode needs a real file: following standard input is refused,
/// and exactly that combination is.
pub fn validate_follow(follow: bool, source: &Source) -> (r: Result<(), AppError>)
    ensures
        r is Ok <==> !(follow && source is Stdin),
        r matches Err(e) ==> e matches AppError::Config(m) && m@ == "cannot tail STDIN"@,
{
    if follow {
        match source {
            Source::Stdin => Err(AppError::Config("cannot tail STDIN".to_owned())),
            Source::LogFile(_) => Ok(()),
        }
    } else {
        Ok(())
    }
}

} // verus!
