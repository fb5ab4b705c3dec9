use vstd::prelude::*;

use vstd::utf8::decode_utf8;
use vstd::utf8::valid_utf8;

use crate::error::Error;
use crate::outcome::item_matches;
use crate::outcome::line_ok;
use crate::outcome::scalar_agrees;
use crate::outcome::wait_success;
use crate::outcome::wait_unsuccessful;
use crate::outcome::Capture;
use crate::parse::FromOutput;

verus! {

/// A run whose process exits successfully and whose whole output is
/// well-formed gives the single-value propagate profile a value, and that
/// value is the one the output denotes. The abort sibling unwraps the same
/// result, so it returns the same value without aborting.
pub proof fn lemma_scalar_success<T: FromOutput>(c: Capture, r: Result<T, Error<T::Fail>>)
    requires
        scalar_agrees::<T>(c, r),
        c.read_fail is None,
        wait_success(c.wait),
        valid_utf8(c.stdout@),
        T::accepts(decode_utf8(c.stdout@)),
    ensures
        r is Ok,
        T::is_value_of(decode_utf8(c.stdout@), r->Ok_0),
{
}

/// Two single-value runs whose captured interactions are identical accept
/// together and both return a value the same output denotes: the result is a
/// function of the capture, up to what the item type's parse relation leaves
/// open.
pub proof fn lemma_scalar_deterministic<T: FromOutput>(
    c: Capture,
    r1: Result<T, Error<T::Fail>>,
    r2: Result<T, Error<T::Fail>>,
)
    requires
        scalar_agrees::<T>(c, r1),
        scalar_agrees::<T>(c, r2),
    ensures
        r1 is Ok <==> r2 is Ok,
        r1 matches Ok(v1) ==> T::is_value_of(decode_utf8(c.stdout@), v1),
        r2 matches Ok(v2) ==> T::is_value_of(decode_utf8(c.stdout@), v2),
{
}

/// For integer items the parse relation is a function, so repeating a run
/// with an identical captured interaction yields the identical value.
pub proof fn lemma_scalar_idempotent_int(
    c: Capture,
    r1: Result<u32, Error<crate::parse::IntParseFailure>>,
    r2: Result<u32, Error<crate::parse::IntParseFailure>>,
)
    requires
        scalar_agrees::<u32>(c, r1),
        scalar_agrees::<u32>(c, r2),
    ensures
        r1 is Ok <==> r2 is Ok,
        r1 matches Ok(v1) ==> (r2 matches Ok(v2) ==> v1 == v2),
{
}

/// Draining the stream profile equals the batch profile's list: over the
/// same captured lines and the same read outcome, the two item sequences
/// have the same length, succeed at the same positions, and their values
/// denote the same lines. The hypotheses are exactly what draining a fresh
/// stream — one the stream profiles return, with no line served yet — and
/// the batch collector ensure.
pub proof fn lemma_stream_batch_equivalence<T: FromOutput>(
    lns: Seq<Seq<u8>>,
    fail_pending: bool,
    streamed: Seq<Result<T, Error<T::Fail>>>,
    batched: Seq<Result<T, Error<T::Fail>>>,
)
    requires
        streamed.len() == lns.len() + (if fail_pending {
            1int
        } else {
            0int
        }),
        batched.len() == streamed.len(),
        forall|i: int| 0 <= i < lns.len() ==> item_matches::<T>(lns[i], #[trigger] streamed[i]),
        forall|i: int| 0 <= i < lns.len() ==> item_matches::<T>(lns[i], #[trigger] batched[i]),
    ensures
        forall|i: int|
            0 <= i < lns.len() ==> ((#[trigger] streamed[i]) is Ok <==> batched[i] is Ok),
        forall|i: int|
            0 <= i < lns.len() ==> ((#[trigger] streamed[i]) matches Ok(a) ==> (
            batched[i] matches Ok(b) ==> T::is_value_of(decode_utf8(lns[i]), a)
                && T::is_value_of(decode_utf8(lns[i]), b))),
{
}

/// For integer items the stream and batch profiles agree item by item, the
/// values being equal outright.
pub proof fn lemma_stream_batch_equivalence_int(
    lns: Seq<Seq<u8>>,
    streamed: Seq<Result<u32, Error<crate::parse::IntParseFailure>>>,
    batched: Seq<Result<u32, Error<crate::parse::IntParseFailure>>>,
)
    requires
        streamed.len() == lns.len(),
        batched.len() == lns.len(),
        forall|i: int| 0 <= i < lns.len() ==> item_matches::<u32>(lns[i], #[trigger] streamed[i]),
        forall|i: int| 0 <= i < lns.len() ==> item_matches::<u32>(lns[i], #[trigger] batched[i]),
    ensures
        forall|i: int|
            0 <= i < lns.len() ==> ((#[trigger] streamed[i]) is Ok <==> batched[i] is Ok),
        forall|i: int|
            0 <= i < lns.len() ==> ((#[trigger] streamed[i]) matches Ok(a) ==> (
            batched[i] matches Ok(b) ==> a == b)),
{
}

/// Exit reconciliation comes before the scalar parse: a run that wrote
/// output but did not exit successfully yields the process-failed error
/// carrying that very output, never a parsed value — even when the output
/// would have parsed.
pub proof fn lemma_exit_status_before_parse<T: FromOutput>(
    c: Capture,
    r: Result<T, Error<T::Fail>>,
)
    requires
        scalar_agrees::<T>(c, r),
        c.read_fail is None,
        wait_unsuccessful(c.wait),
    ensures
        r matches Err(e) && e matches Error::ProcessFailed(o) && o.stdout@ == c.stdout@,
{
}

/// A stream item is determined by its line alone: a line that decodes and
/// parses yields its value as a successful item whatever the process's exit
/// status turns out to be, since no exit information enters the item
/// relation.
pub proof fn lemma_stream_items_ignore_status<T: FromOutput>(
    line: Seq<u8>,
    it: Result<T, Error<T::Fail>>,
)
    requires
        item_matches::<T>(line, it),
        line_ok::<T>(line),
    ensures
        it is Ok,
        T::is_value_of(decode_utf8(line), it->Ok_0),
{
}

} // verus!
