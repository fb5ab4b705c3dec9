use vstd::prelude::*;

use crate::error::ExitReport;

verus! {

/// A live child process with its captured standard output, owned by the
/// execution that spawned it. Dropping the handle waits for the child, so a
/// process is reaped on every exit path.
#[verifier::external_type_specification]
#[verifier::external_body]
pub struct ExJob(subprocess::Job);

/// Relies on subprocess::Exec: `cmd` is run with the given arguments, its
/// standard output redirected into a pipe, its standard error inherited, and
/// its environment inherited from this process extended by the given
/// bindings. `start` reports in its error any operating-system failure to
/// spawn, and the child never shares this process's standard output.
#[verifier::external_body]
pub(crate) fn os_spawn(cmd: &str, args: &Vec<String>, envs: &Vec<(String, String)>) -> (r: Result<
    subprocess::Job,
    String,
>) {
    let mut builder = subprocess::Exec::cmd(cmd).stdout(subprocess::Redirection::Pipe);
    for a in args.iter() {
        builder = builder.arg(a.as_str());
    }
    for (k, v) in envs.iter() {
        builder = builder.env(k.as_str(), v.as_str());
    }
    builder.start().map_err(|e| e.to_string())
}

/// Relies on std::io::Read::read_to_end on the child's captured standard
/// output: every byte the child wrote is appended to `buf`, in order, until
/// the stream ends or a read fails; on a failure the bytes read so far stay
/// appended and the error's message is returned.
#[verifier::external_body]
pub(crate) fn os_read_all(child: &mut subprocess::Job, buf: &mut Vec<u8>) -> (read_fail: Option<
    String,
>)
    ensures
        exists|tail: Seq<u8>| final(buf)@ == old(buf)@ + tail,
{
    match child.stdout.as_mut() {
        None => None,
        Some(out) => match std::io::Read::read_to_end(out, buf) {
            Ok(_) => None,
            Err(e) => Some(e.to_string()),
        },
    }
}

/// Relies on subprocess::Job::wait: blocks until the child has exited,
/// releases it, and reports its exit code or fatal signal; an operating-system
/// failure to wait is returned as the error's message.
#[verifier::external_body]
pub(crate) fn os_wait(child: &subprocess::Job) -> (r: Result<ExitReport, String>) {
    match child.wait() {
        Ok(st) => Ok(ExitReport { code: st.code(), signal: st.signal() }),
        Err(e) => Err(e.to_string()),
    }
}

} // verus!
