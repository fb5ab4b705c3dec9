use vstd::prelude::*;

use vstd::utf8::decode_utf8;
use vstd::utf8::encode_utf8;
use vstd::utf8::encode_utf8_decode_utf8;
use vstd::utf8::valid_utf8;

use crate::error::Error;
use crate::error::ExitReport;
use crate::error::NeverError;
use crate::error::RunOutput;
use crate::os::os_read_all;
use crate::os::os_wait;
use crate::parse::FromOutput;

verus! {

/// Everything one run of a spawned child shows the caller: the bytes its
/// standard output delivered, the read failure that cut the capture short if
/// one did, and what waiting on the child reported.
pub struct Capture {
    pub stdout: Vec<u8>,
    pub read_fail: Option<String>,
    pub wait: Result<ExitReport, String>,
}

/// Reads the child's standard output to its end, then waits for the child.
/// The outcome is whatever the operating system did; the pure outcome
/// functions below say what each profile makes of it.
pub(crate) fn fetch_capture(child: &mut subprocess::Job) -> Capture {
    let mut stdout: Vec<u8> = Vec::new();
    let read_fail = os_read_all(child, &mut stdout);
    let wait = os_wait(child);
    Capture { stdout, read_fail, wait }
}

/// Relies on String::from_utf8: it succeeds exactly on valid UTF-8, the
/// returned string holds exactly the given bytes, and on failure
/// FromUtf8Error::into_bytes gives the bytes back unchanged.
#[verifier::external_body]
pub(crate) fn utf8_to_string(bytes: Vec<u8>) -> (r: Result<String, Vec<u8>>)
    ensures
        r is Ok <==> valid_utf8(bytes@),
        r matches Ok(s) ==> encode_utf8(s@) == bytes@,
        r matches Err(b) ==> b@ == bytes@,
{
    match String::from_utf8(bytes) {
        Ok(s) => Ok(s),
        Err(e) => Err(e.into_bytes()),
    }
}

/// A line decodes and parses: it is valid text and the item type accepts it.
pub open spec fn line_ok<T: FromOutput>(line: Seq<u8>) -> bool {
    valid_utf8(line) && T::accepts(decode_utf8(line))
}

/// How one decoded-and-parsed item relates to the line it came from:
/// success exactly on `line_ok`, the value the one the text denotes, and a
/// failure classified as non-text or as a parse failure, never anything else.
pub open spec fn item_matches<T: FromOutput>(line: Seq<u8>, it: Result<T, Error<T::Fail>>) -> bool {
    &&& (it is Ok <==> line_ok::<T>(line))
    &&& (it matches Ok(v) ==> T::is_value_of(decode_utf8(line), v))
    &&& (it matches Err(e) ==> {
        &&& (e is NonUtf8Stdout <==> !valid_utf8(line))
        &&& (e matches Error::NonUtf8Stdout(b) ==> b@ == line)
        &&& (e is ParsingError <==> valid_utf8(line) && !T::accepts(decode_utf8(line)))
    })
}

/// Decodes one line as text and parses it as an item.
pub fn parse_line<T: FromOutput>(line: Vec<u8>) -> (r: Result<T, Error<T::Fail>>)
    ensures
        item_matches::<T>(line@, r),
{
    match utf8_to_string(line) {
        Err(raw) => Err(Error::NonUtf8Stdout(raw)),
        Ok(text) => {
            proof {
                encode_utf8_decode_utf8(text@);
            }
            match T::parse_text(text.as_str()) {
                Ok(v) => Ok(v),
                Err(pe) => Err(Error::ParsingError(pe)),
            }
        },
    }
}

/// The wait reported a normal exit with code 0.
pub open spec fn wait_success(wait: Result<ExitReport, String>) -> bool {
    wait matches Ok(rep) && rep.spec_success()
}

/// The wait reported an exit, and not a successful one.
pub open spec fn wait_unsuccessful(wait: Result<ExitReport, String>) -> bool {
    wait matches Ok(rep) && !rep.spec_success()
}

/// What exit reconciliation makes of the wait outcome: a wait failure or a
/// non-success exit status becomes the error, with the captured output
/// carried in the process-failed case.
pub open spec fn reconciles<PE>(
    wait: Result<ExitReport, String>,
    stdout: Seq<u8>,
    r: Result<(), Error<PE>>,
) -> bool {
    &&& (r is Ok <==> wait_success(wait))
    &&& (wait matches Err(m) ==> r == Result::<(), Error<PE>>::Err(Error::WaitFailed(m)))
    &&& (r matches Err(e) ==> {
        &&& (e matches Error::ProcessFailed(o) ==> wait == Result::<ExitReport, String>::Ok(o.report)
            && !o.report.spec_success() && o.stdout@ == stdout)
        &&& (e is ProcessFailed <==> wait_unsuccessful(wait))
        &&& (e is WaitFailed <==> wait is Err)
    })
}

/// Checks the exit status once: success passes, anything else is the error.
pub fn check_exit_code<PE>(wait: Result<ExitReport, String>, stdout: Vec<u8>) -> (r: Result<
    (),
    Error<PE>,
>)
    ensures
        reconciles::<PE>(wait, stdout@, r),
{
    match wait {
        Err(m) => Err(Error::WaitFailed(m)),
        Ok(rep) => {
            if rep.success() {
                Ok(())
            } else {
                Err(Error::ProcessFailed(RunOutput { report: rep, stdout }))
            }
        },
    }
}

/// The single-value profile accepts a capture exactly when nothing failed:
/// the read was complete, the child exited with success, and the whole output
/// is text that the item type accepts.
pub open spec fn scalar_ok<T: FromOutput>(c: Capture) -> bool {
    &&& c.read_fail is None
    &&& wait_success(c.wait)
    &&& line_ok::<T>(c.stdout@)
}

/// How a single-value result relates to the capture it came from: success
/// exactly on `scalar_ok` with the value the output denotes, and every
/// failure classified by its source, the exit status counting before the
/// text.
pub open spec fn scalar_agrees<T: FromOutput>(c: Capture, r: Result<T, Error<T::Fail>>) -> bool {
    &&& (r is Ok <==> scalar_ok::<T>(c))
    &&& (r matches Ok(v) ==> T::is_value_of(decode_utf8(c.stdout@), v))
    &&& (c.read_fail matches Some(m) ==> r == Result::<T, Error<T::Fail>>::Err(
        Error::WaitFailed(m),
    ))
    &&& (c.read_fail is None ==> (c.wait matches Err(m) ==> r == Result::<T, Error<T::Fail>>::Err(
        Error::WaitFailed(m),
    )))
    &&& (r matches Err(e) ==> {
        &&& (e matches Error::ProcessFailed(o) ==> c.wait == Result::<ExitReport, String>::Ok(
            o.report,
        ) && !o.report.spec_success() && o.stdout@ == c.stdout@)
        &&& (e is ProcessFailed <==> c.read_fail is None && wait_unsuccessful(c.wait))
        &&& (e matches Error::NonUtf8Stdout(b) ==> b@ == c.stdout@)
        &&& (e is NonUtf8Stdout <==> c.read_fail is None && wait_success(c.wait) && !valid_utf8(
            c.stdout@,
        ))
        &&& (e is ParsingError <==> c.read_fail is None && wait_success(c.wait) && valid_utf8(
            c.stdout@,
        ) && !T::accepts(decode_utf8(c.stdout@)))
        &&& !(e is StdoutUnreadable)
        &&& !(e is ProcessNotSpawned)
    })
}

/// The single-value outcome: the whole captured output is one text, parsed
/// once, and the exit status is checked before the text is even decoded, so a
/// failing process never has its partial output parsed. A read failure is
/// reported as the wait failing, as reading and reaping happen as one step
/// for this shape.
pub fn scalar_outcome<T: FromOutput>(c: Capture) -> (r: Result<T, Error<T::Fail>>)
    ensures
        scalar_agrees::<T>(c, r),
{
    let Capture { stdout, read_fail, wait } = c;
    if let Some(m) = read_fail {
        return Err(Error::WaitFailed(m));
    }
    match wait {
        Err(m) => Err(Error::WaitFailed(m)),
        Ok(rep) => {
            if !rep.success() {
                Err(Error::ProcessFailed(RunOutput { report: rep, stdout }))
            } else {
                parse_line::<T>(stdout)
            }
        },
    }
}

/// The nothing-shaped outcome: only the wait result matters, and a failed
/// run carries an empty output, since this shape never reads the stream.
pub fn void_outcome(wait: Result<ExitReport, String>) -> (r: Result<(), Error<NeverError>>)
    ensures
        reconciles::<NeverError>(wait, Seq::<u8>::empty(), r),
{
    let none_captured: Vec<u8> = Vec::new();
    assert(none_captured@ =~= Seq::<u8>::empty());
    check_exit_code(wait, none_captured)
}

/// The lines kept by the drop policy: those that decode and parse, in order.
pub open spec fn kept_lines<T: FromOutput>(lines: Seq<Seq<u8>>) -> Seq<Seq<u8>>
    decreases lines.len(),
{
    if lines.len() == 0 {
        Seq::empty()
    } else if line_ok::<T>(lines[0]) {
        seq![lines[0]] + kept_lines::<T>(lines.skip(1))
    } else {
        kept_lines::<T>(lines.skip(1))
    }
}

/// Parses every line under the propagate policy: one result per line, in
/// line order, and a read failure that cut the capture short is one trailing
/// stdout-unreadable item.
pub fn collect_items<T: FromOutput>(lines: &Vec<Vec<u8>>, read_fail: Option<String>) -> (r: Vec<
    Result<T, Error<T::Fail>>,
>)
    ensures
        read_fail is None ==> r@.len() == lines.deep_view().len(),
        read_fail is Some ==> r@.len() == lines.deep_view().len() + 1,
        forall|i: int|
            0 <= i < lines.deep_view().len() ==> item_matches::<T>(
                lines.deep_view()[i],
                #[trigger] r@[i],
            ),
        read_fail matches Some(m) ==> r@.last() == Result::<T, Error<T::Fail>>::Err(
            Error::StdoutUnreadable(m),
        ),
{
    let n = lines.len();
    let mut r: Vec<Result<T, Error<T::Fail>>> = Vec::new();
    let mut i: usize = 0;
    while i < n
        invariant
            0 <= i <= n == lines@.len(),
            r@.len() == i,
            forall|k: int|
                0 <= k < i ==> item_matches::<T>(lines.deep_view()[k], #[trigger] r@[k]),
        decreases n - i,
    {
        let line = lines[i].clone();
        assert(line@ == lines.deep_view()[i as int]);
        r.push(parse_line::<T>(line));
        i = i + 1;
    }
    if let Some(m) = read_fail {
        r.push(Err(Error::StdoutUnreadable(m)));
    }
    r
}

/// Parses the lines under the drop policy: a value per line that decodes and
/// parses, in line order; failing lines, and a read failure, leave no trace.
pub fn collect_values<T: FromOutput>(lines: &Vec<Vec<u8>>) -> (r: Vec<T>)
    ensures
        r@.len() == kept_lines::<T>(lines.deep_view()).len(),
        forall|i: int|
            0 <= i < r@.len() ==> T::is_value_of(
                decode_utf8(kept_lines::<T>(lines.deep_view())[i]),
                #[trigger] r@[i],
            ),
{
    let n = lines.len();
    let ghost dv = lines.deep_view();
    let mut r: Vec<T> = Vec::new();
    let ghost mut done: Seq<Seq<u8>> = Seq::empty();
    proof {
        assert(dv.skip(0) =~= dv);
    }
    let mut i: usize = 0;
    while i < n
        invariant
            0 <= i <= n == lines@.len(),
            dv == lines.deep_view(),
            kept_lines::<T>(dv) == done + kept_lines::<T>(dv.skip(i as int)),
            r@.len() == done.len(),
            forall|k: int|
                0 <= k < r@.len() ==> T::is_value_of(decode_utf8(done[k]), #[trigger] r@[k]),
        decreases n - i,
    {
        let ghost suffix = dv.skip(i as int);
        proof {
            assert(suffix[0] == dv[i as int]);
            assert(suffix.skip(1) =~= dv.skip(i + 1));
        }
        let line = lines[i].clone();
        assert(line@ == dv[i as int]);
        match parse_line::<T>(line) {
            Ok(v) => {
                r.push(v);
                proof {
                    done = done.push(dv[i as int]);
                    assert(kept_lines::<T>(suffix) == seq![suffix[0]] + kept_lines::<T>(
                        suffix.skip(1),
                    ));
                    assert(kept_lines::<T>(dv) =~= done + kept_lines::<T>(dv.skip(i + 1)));
                }
            },
            Err(_) => {
                proof {
                    assert(kept_lines::<T>(suffix) == kept_lines::<T>(suffix.skip(1)));
                }
            },
        }
        i = i + 1;
    }
    proof {
        assert(dv.skip(n as int) =~= Seq::<Seq<u8>>::empty());
        assert(kept_lines::<T>(dv) =~= done);
    }
    r
}

} // verus!
