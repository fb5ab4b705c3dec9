use vstd::prelude::*;

use crate::error::Error;
use crate::error::NeverError;
use crate::os::os_spawn;
use crate::os::os_wait;
use crate::outcome::collect_items;
use crate::outcome::collect_values;
use crate::outcome::fetch_capture;
use crate::outcome::item_matches;
use crate::outcome::kept_lines;
use crate::outcome::scalar_outcome;
use crate::outcome::void_outcome;
use crate::parse::FromOutput;
use crate::stream::open_stream;
use crate::stream::ItemStream;
use crate::stream::LineStream;
use crate::stream::ValueStream;

verus! {

/// A sequence of items is the parse, item by item and in order, of a
/// sequence of output lines.
pub open spec fn items_match<T: FromOutput>(
    lns: Seq<Seq<u8>>,
    items: Seq<Result<T, Error<T::Fail>>>,
) -> bool {
    &&& items.len() == lns.len()
    &&& forall|i: int| 0 <= i < lns.len() ==> item_matches::<T>(lns[i], #[trigger] items[i])
}

/// A sequence of values is, in order, the parse of every line of a line
/// sequence that decodes and parses, the other lines leaving no trace.
pub open spec fn values_match<T: FromOutput>(lns: Seq<Seq<u8>>, values: Seq<T>) -> bool {
    &&& values.len() == kept_lines::<T>(lns).len()
    &&& forall|i: int|
        0 <= i < values.len() ==> T::is_value_of(
            vstd::utf8::decode_utf8(kept_lines::<T>(lns)[i]),
            #[trigger] values[i],
        )
}

/// Runs the command and ignores everything, even a spawn failure: the
/// fire-and-forget profile. The child is still waited on when it did spawn,
/// so no process is left behind; this is the one profile that loses failure
/// information on purpose.
pub fn execute_void_nopanic(cmd: &str, args: &Vec<String>, envs: &Vec<(String, String)>) {
    match os_spawn(cmd, args, envs) {
        Err(_) => (),
        Ok(mut child) => {
            let _ = fetch_capture(&mut child);
        },
    }
}

/// The nothing-shaped propagate profile after the spawn: a spawn failure is
/// the process-not-spawned error with the system's message, and for a live
/// child only the wait outcome decides.
pub fn void_result_after_spawn(spawned: Result<subprocess::Job, String>) -> (r: Result<
    (),
    Error<NeverError>,
>)
    ensures
        spawned matches Err(m) ==> r == Result::<(), Error<NeverError>>::Err(
            Error::ProcessNotSpawned(m),
        ),
        spawned is Ok ==> (r matches Err(e) ==> !(e is ProcessNotSpawned)),
        r matches Err(e) ==> {
            &&& e.is_outer_failure()
            &&& (e matches Error::ProcessFailed(o) ==> o.stdout@.len() == 0
                && !o.report.spec_success())
        },
{
    match spawned {
        Err(m) => Err(Error::ProcessNotSpawned(m)),
        Ok(child) => void_outcome(os_wait(&child)),
    }
}

/// Runs the command for its effect alone: a spawn failure, a wait failure
/// and a non-zero exit status are each returned as the matching error, and a
/// failed run carries an empty output, since this profile never reads the
/// stream.
pub fn execute_void_result(cmd: &str, args: &Vec<String>, envs: &Vec<(String, String)>) -> (r:
    Result<(), Error<NeverError>>)
    ensures
        r matches Err(e) ==> {
            &&& e.is_outer_failure()
            &&& (e matches Error::ProcessFailed(o) ==> o.stdout@.len() == 0
                && !o.report.spec_success())
        },
{
    void_result_after_spawn(os_spawn(cmd, args, envs))
}

/// The single-value propagate profile after the spawn: a spawn failure is
/// the process-not-spawned error, and for a live child the result agrees
/// with the capture, whatever the child did.
pub fn parse_result_after_spawn<T: FromOutput>(spawned: Result<subprocess::Job, String>) -> (r:
    Result<T, Error<T::Fail>>)
    ensures
        spawned matches Err(m) ==> r == Result::<T, Error<T::Fail>>::Err(
            Error::ProcessNotSpawned(m),
        ),
        spawned is Ok ==> exists|c: crate::outcome::Capture|
            crate::outcome::scalar_agrees::<T>(c, r),
        r matches Err(e) ==> !(e is StdoutUnreadable),
{
    match spawned {
        Err(m) => Err(Error::ProcessNotSpawned(m)),
        Ok(mut child) => {
            let c = fetch_capture(&mut child);
            let ghost seen = c;
            let r = scalar_outcome::<T>(c);
            proof {
                assert(crate::outcome::scalar_agrees::<T>(seen, r));
            }
            r
        },
    }
}

/// Runs the command and parses its whole output as one value. The exit
/// status is checked before the output is decoded or parsed, so a failing
/// process always yields the process-failed error, never a parse attempt
/// over partial output.
pub fn execute_parse_result<T: FromOutput>(
    cmd: &str,
    args: &Vec<String>,
    envs: &Vec<(String, String)>,
) -> (r: Result<T, Error<T::Fail>>)
    ensures
        r matches Err(e) ==> !(e is StdoutUnreadable),
{
    parse_result_after_spawn::<T>(os_spawn(cmd, args, envs))
}

/// The list-of-results propagate profile after the spawn: a spawn failure is
/// the process-not-spawned error; otherwise the items are the parses of the
/// capture's lines in order, handed back only when exit reconciliation
/// passes.
pub fn vec_result_result_after_spawn<T: FromOutput>(
    spawned: Result<subprocess::Job, String>,
) -> (r: Result<Vec<Result<T, Error<T::Fail>>>, Error<T::Fail>>)
    ensures
        spawned matches Err(m) ==> r == Result::<
            Vec<Result<T, Error<T::Fail>>>,
            Error<T::Fail>,
        >::Err(Error::ProcessNotSpawned(m)),
        spawned is Ok ==> (r matches Err(e) ==> !(e is ProcessNotSpawned)),
        r matches Err(e) ==> e.is_outer_failure(),
        r matches Ok(items) ==> exists|b: Seq<u8>|
            items_match::<T>(
                #[trigger] crate::lines::split_lines_spec(b),
                items@.take(crate::lines::split_lines_spec(b).len() as int),
            ),
        r matches Ok(items) ==> forall|i: int|
            0 <= i < items@.len() ==> (#[trigger] items@[i] matches Err(e)
                ==> e.is_item_failure()),
{
    match spawned {
        Err(m) => Err(Error::ProcessNotSpawned(m)),
        Ok(mut child) => {
            let c = fetch_capture(&mut child);
            let lns = crate::lines::split_lines(&c.stdout);
            let items = collect_items::<T>(&lns, c.read_fail);
            match crate::outcome::check_exit_code::<T::Fail>(c.wait, c.stdout) {
                Err(e) => Err(e),
                Ok(()) => {
                    proof {
                        let b = c.stdout@;
                        assert(items@.take(crate::lines::split_lines_spec(b).len() as int)
                            =~= items@.take(lns.deep_view().len() as int));
                        assert(items_match::<T>(
                            crate::lines::split_lines_spec(b),
                            items@.take(crate::lines::split_lines_spec(b).len() as int),
                        ));
                    }
                    Ok(items)
                },
            }
        },
    }
}

/// Runs the command and parses its output line by line, every line giving
/// one result in order; the exit status is checked only after every line was
/// collected, and its failure discards no collected item — it replaces the
/// whole list with the error.
pub fn execute_vec_result_result<T: FromOutput>(
    cmd: &str,
    args: &Vec<String>,
    envs: &Vec<(String, String)>,
) -> (r: Result<Vec<Result<T, Error<T::Fail>>>, Error<T::Fail>>)
    ensures
        r matches Err(e) ==> e.is_outer_failure(),
        r matches Ok(items) ==> exists|b: Seq<u8>|
            items_match::<T>(
                #[trigger] crate::lines::split_lines_spec(b),
                items@.take(crate::lines::split_lines_spec(b).len() as int),
            ),
        r matches Ok(items) ==> forall|i: int|
            0 <= i < items@.len() ==> (#[trigger] items@[i] matches Err(e)
                ==> e.is_item_failure()),
{
    vec_result_result_after_spawn::<T>(os_spawn(cmd, args, envs))
}

/// The list-of-values propagate profile after the spawn: a spawn failure is
/// the process-not-spawned error; otherwise the kept values are handed back
/// only when exit reconciliation passes.
pub fn vec_result_nopanic_after_spawn<T: FromOutput>(
    spawned: Result<subprocess::Job, String>,
) -> (r: Result<Vec<T>, Error<T::Fail>>)
    ensures
        spawned matches Err(m) ==> r == Result::<Vec<T>, Error<T::Fail>>::Err(
            Error::ProcessNotSpawned(m),
        ),
        spawned is Ok ==> (r matches Err(e) ==> !(e is ProcessNotSpawned)),
        r matches Err(e) ==> e.is_outer_failure(),
        r matches Ok(values) ==> exists|b: Seq<u8>|
            values_match::<T>(#[trigger] crate::lines::split_lines_spec(b), values@),
{
    match spawned {
        Err(m) => Err(Error::ProcessNotSpawned(m)),
        Ok(mut child) => {
            let c = fetch_capture(&mut child);
            let lns = crate::lines::split_lines(&c.stdout);
            let values = collect_values::<T>(&lns);
            match crate::outcome::check_exit_code::<T::Fail>(c.wait, c.stdout) {
                Err(e) => Err(e),
                Ok(()) => {
                    proof {
                        assert(values_match::<T>(
                            crate::lines::split_lines_spec(c.stdout@),
                            values@,
                        ));
                    }
                    Ok(values)
                },
            }
        },
    }
}

/// Runs the command and parses its output line by line, keeping only the
/// values that parse; the exit status is checked after collection and its
/// failure replaces the whole list with the error.
pub fn execute_vec_result_nopanic<T: FromOutput>(
    cmd: &str,
    args: &Vec<String>,
    envs: &Vec<(String, String)>,
) -> (r: Result<Vec<T>, Error<T::Fail>>)
    ensures
        r matches Err(e) ==> e.is_outer_failure(),
        r matches Ok(values) ==> exists|b: Seq<u8>|
            values_match::<T>(#[trigger] crate::lines::split_lines_spec(b), values@),
{
    vec_result_nopanic_after_spawn::<T>(os_spawn(cmd, args, envs))
}

/// The list-of-results drop-outer profile after the spawn: a command that
/// never spawned yields an empty list, and the exit status is waited for but
/// never reported.
pub fn vec_nopanic_result_after_spawn<T: FromOutput>(
    spawned: Result<subprocess::Job, String>,
) -> (r: Vec<Result<T, Error<T::Fail>>>)
    ensures
        spawned is Err ==> r@.len() == 0,
        exists|b: Seq<u8>|
            items_match::<T>(
                #[trigger] crate::lines::split_lines_spec(b),
                r@.take(crate::lines::split_lines_spec(b).len() as int),
            ),
        forall|i: int|
            0 <= i < r@.len() ==> (#[trigger] r@[i] matches Err(e) ==> e.is_item_failure()),
{
    match spawned {
        Err(_) => {
            let r: Vec<Result<T, Error<T::Fail>>> = Vec::new();
            proof {
                let b = Seq::<u8>::empty();
                assert(crate::lines::split_lines_spec(b) =~= Seq::<Seq<u8>>::empty());
                assert(r@.take(crate::lines::split_lines_spec(b).len() as int) =~= Seq::<
                    Result<T, Error<T::Fail>>,
                >::empty());
                assert(items_match::<T>(
                    crate::lines::split_lines_spec(b),
                    r@.take(crate::lines::split_lines_spec(b).len() as int),
                ));
            }
            r
        },
        Ok(mut child) => {
            let c = fetch_capture(&mut child);
            let lns = crate::lines::split_lines(&c.stdout);
            let items = collect_items::<T>(&lns, c.read_fail);
            proof {
                let b = c.stdout@;
                assert(items@.take(crate::lines::split_lines_spec(b).len() as int) =~= items@.take(
                    lns.deep_view().len() as int,
                ));
                assert(items_match::<T>(
                    crate::lines::split_lines_spec(b),
                    items@.take(crate::lines::split_lines_spec(b).len() as int),
                ));
            }
            items
        },
    }
}

/// Runs the command and parses its output line by line, every line giving
/// one result in order. A spawn failure yields an empty list, and the exit
/// status is waited for but never reported: already-collected items are all
/// the caller sees.
pub fn execute_vec_nopanic_result<T: FromOutput>(
    cmd: &str,
    args: &Vec<String>,
    envs: &Vec<(String, String)>,
) -> (r: Vec<Result<T, Error<T::Fail>>>)
    ensures
        exists|b: Seq<u8>|
            items_match::<T>(
                #[trigger] crate::lines::split_lines_spec(b),
                r@.take(crate::lines::split_lines_spec(b).len() as int),
            ),
        forall|i: int|
            0 <= i < r@.len() ==> (#[trigger] r@[i] matches Err(e) ==> e.is_item_failure()),
{
    vec_nopanic_result_after_spawn::<T>(os_spawn(cmd, args, envs))
}

/// The list-of-values drop-everything profile after the spawn: a command
/// that never spawned yields an empty list; otherwise the values that parse,
/// the exit status waited for but ignored.
pub fn vec_nopanic_nopanic_after_spawn<T: FromOutput>(
    spawned: Result<subprocess::Job, String>,
) -> (r: Vec<T>)
    ensures
        spawned is Err ==> r@.len() == 0,
        exists|b: Seq<u8>|
            values_match::<T>(#[trigger] crate::lines::split_lines_spec(b), r@),
{
    match spawned {
        Err(_) => {
            let r: Vec<T> = Vec::new();
            proof {
                let b = Seq::<u8>::empty();
                assert(crate::lines::split_lines_spec(b) =~= Seq::<Seq<u8>>::empty());
                assert(kept_lines::<T>(crate::lines::split_lines_spec(b)) =~= Seq::<
                    Seq<u8>,
                >::empty());
                assert(values_match::<T>(crate::lines::split_lines_spec(b), r@));
            }
            r
        },
        Ok(mut child) => {
            let c = fetch_capture(&mut child);
            let lns = crate::lines::split_lines(&c.stdout);
            let values = collect_values::<T>(&lns);
            proof {
                assert(values_match::<T>(crate::lines::split_lines_spec(c.stdout@), values@));
            }
            values
        },
    }
}

/// Runs the command and parses its output line by line, keeping only the
/// values that parse. A spawn failure yields an empty list, and the exit
/// status is waited for but ignored.
pub fn execute_vec_nopanic_nopanic<T: FromOutput>(
    cmd: &str,
    args: &Vec<String>,
    envs: &Vec<(String, String)>,
) -> (r: Vec<T>)
    ensures
        exists|b: Seq<u8>|
            values_match::<T>(#[trigger] crate::lines::split_lines_spec(b), r@),
{
    vec_nopanic_nopanic_after_spawn::<T>(os_spawn(cmd, args, envs))
}

/// The stream-of-results propagate profile after the spawn: a spawn failure
/// is the process-not-spawned error, returned before any item; a live child
/// gives a fresh stream.
pub fn iter_result_result_after_spawn<T: FromOutput>(
    spawned: Result<subprocess::Job, String>,
) -> (r: Result<ItemStream<T>, Error<T::Fail>>)
    ensures
        spawned matches Err(m) ==> r matches Err(e) && e == Error::<T::Fail>::ProcessNotSpawned(
            m,
        ),
        spawned is Ok ==> r is Ok,
        r matches Err(e) ==> e is ProcessNotSpawned,
        r matches Ok(s) ==> {
            &&& s.wf()
            &&& s.spec_fresh()
            &&& s.spec_served() == 0
            &&& s.spec_has_child()
        },
{
    match spawned {
        Err(m) => Err(Error::ProcessNotSpawned(m)),
        Ok(child) => Ok(ItemStream::from_source(open_stream(child))),
    }
}

/// Runs the command and returns its output as a stream of parse results, one
/// per line in order. Only a spawn failure is an error here; once the stream
/// exists, the exit status is never re-checked — the sequence simply ends
/// when the output does.
pub fn execute_iter_result_result<T: FromOutput>(
    cmd: &str,
    args: &Vec<String>,
    envs: &Vec<(String, String)>,
) -> (r: Result<ItemStream<T>, Error<T::Fail>>)
    ensures
        r matches Err(e) ==> e is ProcessNotSpawned,
        r matches Ok(s) ==> {
            &&& s.wf()
            &&& s.spec_fresh()
            &&& s.spec_served() == 0
            &&& s.spec_has_child()
        },
{
    iter_result_result_after_spawn::<T>(os_spawn(cmd, args, envs))
}

/// The stream-of-values propagate profile after the spawn: a spawn failure
/// is the process-not-spawned error; a live child gives a fresh stream.
pub fn iter_result_nopanic_after_spawn<T: FromOutput>(
    spawned: Result<subprocess::Job, String>,
) -> (r: Result<ValueStream<T>, Error<T::Fail>>)
    ensures
        spawned matches Err(m) ==> r matches Err(e) && e == Error::<T::Fail>::ProcessNotSpawned(
            m,
        ),
        spawned is Ok ==> r is Ok,
        r matches Err(e) ==> e is ProcessNotSpawned,
        r matches Ok(s) ==> {
            &&& s.wf()
            &&& s.spec_fresh()
            &&& s.spec_served() == 0
            &&& s.spec_has_child()
        },
{
    match spawned {
        Err(m) => Err(Error::ProcessNotSpawned(m)),
        Ok(child) => Ok(ValueStream::from_source(open_stream(child))),
    }
}

/// Runs the command and returns its output as a stream of parsed values,
/// lines that fail to parse leaving no trace. Only a spawn failure is an
/// error here.
pub fn execute_iter_result_nopanic<T: FromOutput>(
    cmd: &str,
    args: &Vec<String>,
    envs: &Vec<(String, String)>,
) -> (r: Result<ValueStream<T>, Error<T::Fail>>)
    ensures
        r matches Err(e) ==> e is ProcessNotSpawned,
        r matches Ok(s) ==> {
            &&& s.wf()
            &&& s.spec_fresh()
            &&& s.spec_served() == 0
            &&& s.spec_has_child()
        },
{
    iter_result_nopanic_after_spawn::<T>(os_spawn(cmd, args, envs))
}

/// The stream-of-results drop-outer profile after the spawn: a command that
/// never spawned yields a stream with nothing in it.
pub fn iter_nopanic_result_after_spawn<T: FromOutput>(
    spawned: Result<subprocess::Job, String>,
) -> (s: ItemStream<T>)
    ensures
        s.wf(),
        s.spec_fresh(),
        s.spec_served() == 0,
        spawned is Err ==> s.spec_lines().len() == 0 && !s.spec_fail_pending()
            && !s.spec_has_child(),
{
    match spawned {
        Err(_) => ItemStream::from_source(LineStream::empty()),
        Ok(child) => ItemStream::from_source(open_stream(child)),
    }
}

/// Runs the command and returns its output as a stream of parse results; a
/// command that cannot be spawned yields an empty stream rather than an
/// error.
pub fn execute_iter_nopanic_result<T: FromOutput>(
    cmd: &str,
    args: &Vec<String>,
    envs: &Vec<(String, String)>,
) -> (s: ItemStream<T>)
    ensures
        s.wf(),
        s.spec_fresh(),
        s.spec_served() == 0,
{
    iter_nopanic_result_after_spawn::<T>(os_spawn(cmd, args, envs))
}

/// The stream-of-values drop-everything profile after the spawn: a command
/// that never spawned yields a stream with nothing in it.
pub fn iter_nopanic_nopanic_after_spawn<T: FromOutput>(
    spawned: Result<subprocess::Job, String>,
) -> (s: ValueStream<T>)
    ensures
        s.wf(),
        s.spec_fresh(),
        s.spec_served() == 0,
        spawned is Err ==> s.spec_lines().len() == 0 && !s.spec_fail_pending()
            && !s.spec_has_child(),
{
    match spawned {
        Err(_) => ValueStream::from_source(LineStream::empty()),
        Ok(child) => ValueStream::from_source(open_stream(child)),
    }
}

/// Runs the command and returns its output as a stream of parsed values;
/// a command that cannot be spawned yields an empty stream, and lines that
/// fail to parse leave no trace.
pub fn execute_iter_nopanic_nopanic<T: FromOutput>(
    cmd: &str,
    args: &Vec<String>,
    envs: &Vec<(String, String)>,
) -> (s: ValueStream<T>)
    ensures
        s.wf(),
        s.spec_fresh(),
        s.spec_served() == 0,
{
    iter_nopanic_nopanic_after_spawn::<T>(os_spawn(cmd, args, envs))
}

} // verus!
