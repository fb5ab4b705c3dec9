use vstd::prelude::*;

verus! {

/// What the operating system reported when the child process was reaped.
///
/// `code` is the exit code when the process exited normally, `signal` the
/// signal number when it was killed by a signal; both are `None` when the
/// status could not be determined.
#[derive(Clone, Copy, Debug)]
pub struct ExitReport {
    pub code: Option<u32>,
    pub signal: Option<i32>,
}

impl ExitReport {
    /// A run counts as successful exactly when the process exited with code 0.
    pub open spec fn spec_success(&self) -> bool {
        self.code == Some(0u32)
    }

    pub fn success(&self) -> (b: bool)
        ensures
            b == self.spec_success(),
    {
        match self.code {
            Some(c) => c == 0,
            None => false,
        }
    }
}

/// The exit report of a failed run together with the standard output that had
/// been captured before the failure was observed.
#[derive(Debug)]
pub struct RunOutput {
    pub report: ExitReport,
    pub stdout: Vec<u8>,
}

/// Every way a profile execution can fail, as a closed taxonomy.
///
/// Exactly one variant applies to any failure and each variant wraps exactly
/// one cause:
/// - `NonUtf8Stdout` carries the captured bytes that were not valid text;
/// - `ParsingError` wraps the item type's own parse error;
/// - `ProcessNotSpawned`, `StdoutUnreadable` and `WaitFailed` carry the
///   operating system's error message for the spawn, read or wait that failed;
/// - `ProcessFailed` carries the non-success exit report and the output
///   captured up to that point.
#[derive(Debug)]
pub enum Error<PE> {
    NonUtf8Stdout(Vec<u8>),
    ParsingError(PE),
    ProcessNotSpawned(String),
    StdoutUnreadable(String),
    WaitFailed(String),
    ProcessFailed(RunOutput),
}

impl<PE> Error<PE> {
    /// True of the variants that report an outer failure: one of the spawn,
    /// the wait, or the exit status, never of a single line.
    pub open spec fn is_outer_failure(&self) -> bool {
        self is ProcessNotSpawned || self is WaitFailed || self is ProcessFailed
    }

    /// True of the variants that report the failure of one output item:
    /// a line that was not text, could not be read, or did not parse.
    pub open spec fn is_item_failure(&self) -> bool {
        self is NonUtf8Stdout || self is ParsingError || self is StdoutUnreadable
    }

    /// The fixed description of this failure's kind.
    pub open spec fn spec_description(&self) -> Seq<char> {
        match self {
            Error::NonUtf8Stdout(_) => "subprocess stdout contains non-utf8 characters"@,
            Error::ParsingError(_) => "could not parse subprocess output"@,
            Error::ProcessNotSpawned(_) => "could not spawn subprocess"@,
            Error::StdoutUnreadable(_) => "could not read subprocess stdout"@,
            Error::WaitFailed(_) => "subprocess failed"@,
            Error::ProcessFailed(_) => "subprocess finished with error"@,
        }
    }

    /// Describes the failure's kind in a fixed sentence.
    pub fn describe(&self) -> (m: String)
        ensures
            m@ == self.spec_description(),
    {
        match self {
            Error::NonUtf8Stdout(_) => String::from_str(
                "subprocess stdout contains non-utf8 characters",
            ),
            Error::ParsingError(_) => String::from_str("could not parse subprocess output"),
            Error::ProcessNotSpawned(_) => String::from_str("could not spawn subprocess"),
            Error::StdoutUnreadable(_) => String::from_str("could not read subprocess stdout"),
            Error::WaitFailed(_) => String::from_str("subprocess failed"),
            Error::ProcessFailed(_) => String::from_str("subprocess finished with error"),
        }
    }
}

/// The parse error of an item type whose parsing never fails.
///
/// No function of this library constructs a value of it; the one variant only
/// exists because an empty datatype cannot be declared here.
#[derive(Clone, Copy, Debug, PartialEq, Eq, Structural)]
pub enum NeverError {
    Never,
}

} // verus!
