use core::marker::PhantomData;
use vstd::prelude::*;

use vstd::utf8::decode_utf8;

use crate::error::Error;
use crate::error::ExitReport;
use crate::lines::split_lines_spec;
use crate::os::os_wait;
use crate::outcome::check_exit_code;
use crate::outcome::reconciles;
use crate::outcome::item_matches;
use crate::outcome::kept_lines;
use crate::outcome::parse_line;
use crate::parse::FromOutput;

verus! {

/// One pull from a line stream: the next line, the read failure that cut the
/// capture short, or the end of the stream.
pub enum LineEvent {
    Line(Vec<u8>),
    ReadFailure(String),
    Finished,
}

/// A captured output stream served line by line.
///
/// The child's output has been captured in full; its lines are handed out
/// one pull at a time, and the child itself is still owned here: it is
/// waited on by `finish`, or else when the stream is dropped, so the process
/// is reaped on every path. The exit status plays no part in which lines
/// come out.
pub struct LineStream {
    child: Option<subprocess::Job>,
    bytes: Vec<u8>,
    cursor: usize,
    read_fail: Option<String>,
    fail_served: bool,
    served: Ghost<Seq<Seq<u8>>>,
}

impl LineStream {
    /// The served lines and the lines still to come make up exactly the
    /// lines of the captured bytes.
    pub closed spec fn wf(&self) -> bool {
        &&& self.cursor <= self.bytes@.len()
        &&& self.served@ + split_lines_spec(self.bytes@.skip(self.cursor as int))
            == split_lines_spec(self.bytes@)
        &&& (self.read_fail is None ==> !self.fail_served)
    }

    /// All lines of the captured output.
    pub closed spec fn spec_lines(&self) -> Seq<Seq<u8>> {
        split_lines_spec(self.bytes@)
    }

    /// The lines served so far, in order.
    pub closed spec fn spec_served_seq(&self) -> Seq<Seq<u8>> {
        self.served@
    }

    /// How many lines have been served.
    pub open spec fn spec_served(&self) -> int {
        self.spec_served_seq().len() as int
    }

    /// The read failure that cut the capture short, if one did.
    pub closed spec fn spec_read_fail(&self) -> Option<String> {
        self.read_fail
    }

    /// The read failure still waiting to be served, if any.
    pub closed spec fn spec_fail_pending(&self) -> bool {
        self.read_fail is Some && !self.fail_served
    }

    /// Nothing has been pulled yet.
    pub closed spec fn spec_fresh(&self) -> bool {
        self.spec_served() == 0 && !self.fail_served
    }

    /// The stream still owns a live child, to be waited on by `finish` or at
    /// the latest when the stream is dropped.
    pub closed spec fn spec_has_child(&self) -> bool {
        self.child is Some
    }

    /// The bytes the capture delivered.
    pub closed spec fn spec_captured(&self) -> Seq<u8> {
        self.bytes@
    }

    /// A measure that every pull that returns something strictly shrinks.
    pub closed spec fn spec_left(&self) -> int {
        self.bytes@.len() - self.cursor + (if self.spec_fail_pending() {
            1int
        } else {
            0int
        })
    }

    /// A stream with nothing in it, for the profiles where a spawn failure
    /// yields an empty sequence rather than an error.
    pub(crate) fn empty() -> (s: LineStream)
        ensures
            s.wf(),
            s.spec_fresh(),
            s.spec_served() == 0,
            s.spec_lines().len() == 0,
            !s.spec_fail_pending(),
            !s.spec_has_child(),
    {
        let bytes: Vec<u8> = Vec::new();
        proof {
            assert(bytes@.skip(0) =~= bytes@);
        }
        LineStream {
            child: None,
            bytes,
            cursor: 0,
            read_fail: None,
            fail_served: false,
            served: Ghost(Seq::empty()),
        }
    }

    /// A stream over output that is already in hand, with no process behind
    /// it: the decoding behaves exactly as over a live child's output.
    pub fn from_bytes(bytes: Vec<u8>, read_fail: Option<String>) -> (s: LineStream)
        ensures
            s.wf(),
            s.spec_fresh(),
            s.spec_served() == 0,
            s.spec_lines() == split_lines_spec(bytes@),
            s.spec_captured() == bytes@,
            s.spec_fail_pending() == (read_fail is Some),
            s.spec_read_fail() == read_fail,
            !s.spec_has_child(),
    {
        proof {
            assert(bytes@.skip(0) =~= bytes@);
        }
        LineStream {
            child: None,
            bytes,
            cursor: 0,
            read_fail,
            fail_served: false,
            served: Ghost(Seq::empty()),
        }
    }

    /// A stream over everything the child wrote; the child is kept to be
    /// reaped later.
    pub(crate) fn over(child: subprocess::Job, bytes: Vec<u8>, read_fail: Option<String>) -> (s:
        LineStream)
        ensures
            s.wf(),
            s.spec_fresh(),
            s.spec_served() == 0,
            s.spec_lines() == split_lines_spec(bytes@),
            s.spec_captured() == bytes@,
            s.spec_fail_pending() == (read_fail is Some),
            s.spec_has_child(),
    {
        proof {
            assert(bytes@.skip(0) =~= bytes@);
        }
        LineStream {
            child: Some(child),
            bytes,
            cursor: 0,
            read_fail,
            fail_served: false,
            served: Ghost(Seq::empty()),
        }
    }

    /// Serves the next line, in order; after the last line, the pending read
    /// failure if there is one; after that, the end of the stream. The exit
    /// status is never consulted.
    pub fn next_line(&mut self) -> (ev: LineEvent)
        requires
            old(self).wf(),
        ensures
            final(self).wf(),
            final(self).spec_lines() == old(self).spec_lines(),
            final(self).spec_captured() == old(self).spec_captured(),
            final(self).spec_read_fail() == old(self).spec_read_fail(),
            final(self).spec_has_child() == old(self).spec_has_child(),
            ev matches LineEvent::Line(l) ==> {
                &&& final(self).spec_served_seq() == old(self).spec_served_seq().push(l@)
                &&& old(self).spec_served() < old(self).spec_lines().len()
                &&& l@ == old(self).spec_lines()[old(self).spec_served()]
                &&& final(self).spec_fail_pending() == old(self).spec_fail_pending()
                &&& final(self).spec_left() < old(self).spec_left()
            },
            ev matches LineEvent::ReadFailure(m) ==> {
                &&& old(self).spec_read_fail() == Some(m)
                &&& old(self).spec_fail_pending()
                &&& !final(self).spec_fail_pending()
                &&& final(self).spec_served_seq() == old(self).spec_served_seq()
                &&& old(self).spec_served() == old(self).spec_lines().len()
                &&& final(self).spec_left() < old(self).spec_left()
            },
            ev is Finished ==> {
                &&& final(self).spec_served_seq() == old(self).spec_served_seq()
                &&& final(self).spec_fail_pending() == old(self).spec_fail_pending()
                &&& old(self).spec_served() == old(self).spec_lines().len()
                &&& !old(self).spec_fail_pending()
            },
    {
        let n = self.bytes.len();
        if self.cursor < n {
            let start = self.cursor;
            let ghost suffix = self.bytes@.skip(start as int);
            // Find the newline that ends the current line.
            let mut j = start;
            while j < n && self.bytes[j] != 10u8
                invariant
                    start <= j <= n == self.bytes@.len(),
                    forall|k: int| start <= k < j ==> self.bytes@[k] != crate::lines::nl(),
                decreases n - j,
            {
                j = j + 1;
            }
            proof {
                assert forall|k: int| 0 <= k < j - start implies suffix[k] != crate::lines::nl()
                by {
                    assert(suffix[k] == self.bytes@[start + k]);
                }
                if j < n {
                    assert(suffix[j - start] == self.bytes@[j as int]);
                }
                crate::lines::lemma_first_nl_unique(suffix, j - start);
            }
            // Copy the line out.
            let mut line: Vec<u8> = Vec::new();
            let mut k = start;
            while k < j
                invariant
                    start <= k <= j <= n == self.bytes@.len(),
                    line@ =~= self.bytes@.subrange(start as int, k as int),
                decreases j - k,
            {
                line.push(self.bytes[k]);
                k = k + 1;
            }
            assert(line@ =~= suffix.take(j - start));
            if j < n {
                if line.len() > 0 && line[line.len() - 1] == 13u8 {
                    line.pop();
                }
                assert(line@ =~= crate::lines::chomp_cr(suffix.take(j - start)));
                proof {
                    assert(suffix.skip(j - start + 1) =~= self.bytes@.skip(j + 1));
                }
                self.cursor = j + 1;
            } else {
                assert(line@ =~= suffix);
                proof {
                    assert(self.bytes@.skip(n as int) =~= Seq::<u8>::empty());
                }
                self.cursor = n;
            }
            proof {
                assert(split_lines_spec(suffix) =~= seq![line@] + split_lines_spec(
                    self.bytes@.skip(self.cursor as int),
                ));
                let lns = split_lines_spec(self.bytes@);
                assert(lns =~= self.served@ + split_lines_spec(suffix));
                assert(lns[self.served@.len() as int] == line@);
                self.served = Ghost(self.served@.push(line@));
                assert(self.served@ + split_lines_spec(self.bytes@.skip(self.cursor as int))
                    =~= lns);
            }
            return LineEvent::Line(line);
        }
        proof {
            assert(self.bytes@.skip(self.cursor as int) =~= Seq::<u8>::empty());
            assert(self.served@ + Seq::<Seq<u8>>::empty() =~= self.served@);
        }
        if !self.fail_served {
            let failed = match &self.read_fail {
                Some(m) => Some(m.clone()),
                None => None,
            };
            if let Some(m) = failed {
                self.fail_served = true;
                return LineEvent::ReadFailure(m);
            }
        }
        LineEvent::Finished
    }

    /// Waits for the child once and reconciles its exit status, a failed
    /// exit carrying the captured output; the stream's lines are unaffected.
    /// On a stream with no child to wait on — one that never had one, or one
    /// already finished — this succeeds.
    pub fn finish<PE>(&mut self) -> (r: Result<(), Error<PE>>)
        requires
            old(self).wf(),
        ensures
            final(self).wf(),
            final(self).spec_lines() == old(self).spec_lines(),
            final(self).spec_captured() == old(self).spec_captured(),
            final(self).spec_served_seq() == old(self).spec_served_seq(),
            final(self).spec_read_fail() == old(self).spec_read_fail(),
            final(self).spec_fail_pending() == old(self).spec_fail_pending(),
            !final(self).spec_has_child(),
            !old(self).spec_has_child() ==> r == Result::<(), Error<PE>>::Ok(()),
            exists|w: Result<ExitReport, String>|
                reconciles::<PE>(w, old(self).spec_captured(), r),
            r matches Err(e) ==> e is WaitFailed || e is ProcessFailed,
    {
        let had = self.child.take();
        match had {
            None => {
                let r: Result<(), Error<PE>> = Ok(());
                proof {
                    let w = Result::<ExitReport, String>::Ok(
                        ExitReport { code: Some(0u32), signal: None },
                    );
                    assert(reconciles::<PE>(w, old(self).spec_captured(), r));
                }
                r
            },
            Some(job) => {
                let w = os_wait(&job);
                let ghost awaited = w;
                let r = check_exit_code::<PE>(w, copy_bytes(&self.bytes));
                proof {
                    assert(reconciles::<PE>(awaited, old(self).spec_captured(), r));
                }
                r
            },
        }
    }
}

/// A copy of captured bytes, byte for byte.
fn copy_bytes(src: &Vec<u8>) -> (r: Vec<u8>)
    ensures
        r@ == src@,
{
    let n = src.len();
    let mut r: Vec<u8> = Vec::new();
    let mut i: usize = 0;
    while i < n
        invariant
            0 <= i <= n == src@.len(),
            r@ =~= src@.subrange(0, i as int),
        decreases n - i,
    {
        r.push(src[i]);
        i = i + 1;
    }
    proof {
        assert(r@ =~= src@);
    }
    r
}

/// A stream of parse results: one item per line under the propagate policy,
/// with a read failure surfaced as one trailing item.
pub struct ItemStream<T> {
    source: LineStream,
    marker: PhantomData<T>,
}

impl<T: FromOutput> ItemStream<T> {
    pub closed spec fn wf(&self) -> bool {
        self.source.wf()
    }

    pub closed spec fn spec_lines(&self) -> Seq<Seq<u8>> {
        self.source.spec_lines()
    }

    pub closed spec fn spec_served(&self) -> int {
        self.source.spec_served()
    }

    pub closed spec fn spec_fail_pending(&self) -> bool {
        self.source.spec_fail_pending()
    }

    pub closed spec fn spec_read_fail(&self) -> Option<String> {
        self.source.spec_read_fail()
    }

    pub closed spec fn spec_fresh(&self) -> bool {
        self.source.spec_fresh()
    }

    pub closed spec fn spec_left(&self) -> int {
        self.source.spec_left()
    }

    pub closed spec fn spec_has_child(&self) -> bool {
        self.source.spec_has_child()
    }

    pub closed spec fn spec_captured(&self) -> Seq<u8> {
        self.source.spec_captured()
    }

    /// Serves a line stream under the propagate item policy.
    pub fn from_source(source: LineStream) -> (s: ItemStream<T>)
        requires
            source.wf(),
        ensures
            s.wf(),
            s.spec_lines() == source.spec_lines(),
            s.spec_captured() == source.spec_captured(),
            s.spec_fresh() == source.spec_fresh(),
            s.spec_fail_pending() == source.spec_fail_pending(),
            s.spec_read_fail() == source.spec_read_fail(),
            s.spec_served() == source.spec_served(),
            s.spec_has_child() == source.spec_has_child(),
    {
        ItemStream { source, marker: PhantomData }
    }

    /// Serves the next item: each line parsed in order, then the pending
    /// read failure as a stdout-unreadable item, then nothing. The exit
    /// status never cuts this sequence short and is never reported here.
    pub fn next_item(&mut self) -> (it: Option<Result<T, Error<T::Fail>>>)
        requires
            old(self).wf(),
        ensures
            final(self).wf(),
            final(self).spec_lines() == old(self).spec_lines(),
            final(self).spec_captured() == old(self).spec_captured(),
            final(self).spec_read_fail() == old(self).spec_read_fail(),
            final(self).spec_has_child() == old(self).spec_has_child(),
            it matches Some(r) ==> {
                ||| {
                    &&& old(self).spec_served() < old(self).spec_lines().len()
                    &&& final(self).spec_served() == old(self).spec_served() + 1
                    &&& item_matches::<T>(
                        old(self).spec_lines()[old(self).spec_served()],
                        r,
                    )
                    &&& final(self).spec_fail_pending() == old(self).spec_fail_pending()
                }
                ||| {
                    &&& old(self).spec_served() == old(self).spec_lines().len()
                    &&& final(self).spec_served() == old(self).spec_served()
                    &&& old(self).spec_fail_pending()
                    &&& !final(self).spec_fail_pending()
                    &&& (r matches Err(e) && e matches Error::StdoutUnreadable(m)
                        && old(self).spec_read_fail() == Some(m))
                }
            },
            it is Some ==> final(self).spec_left() < old(self).spec_left(),
            it is None ==> {
                &&& old(self).spec_served() == old(self).spec_lines().len()
                &&& !old(self).spec_fail_pending()
                &&& final(self).spec_served() == old(self).spec_served()
                &&& !final(self).spec_fail_pending()
            },
    {
        match self.source.next_line() {
            LineEvent::Line(l) => Some(parse_line::<T>(l)),
            LineEvent::ReadFailure(m) => Some(Err(Error::StdoutUnreadable(m))),
            LineEvent::Finished => None,
        }
    }

    /// Drains the stream: every remaining line's item in order, then the
    /// pending read-failure item if there is one.
    pub fn collect_remaining(&mut self) -> (items: Vec<Result<T, Error<T::Fail>>>)
        requires
            old(self).wf(),
        ensures
            final(self).wf(),
            final(self).spec_lines() == old(self).spec_lines(),
            final(self).spec_captured() == old(self).spec_captured(),
            final(self).spec_has_child() == old(self).spec_has_child(),
            final(self).spec_served() == old(self).spec_lines().len(),
            !final(self).spec_fail_pending(),
            items@.len() == old(self).spec_lines().len() - old(self).spec_served() + (
            if old(self).spec_fail_pending() {
                1int
            } else {
                0int
            }),
            forall|i: int|
                0 <= i < old(self).spec_lines().len() - old(self).spec_served()
                    ==> item_matches::<T>(
                    old(self).spec_lines()[old(self).spec_served() + i],
                    #[trigger] items@[i],
                ),
            old(self).spec_fail_pending() ==> (items@.last() matches Err(e)
                && e matches Error::StdoutUnreadable(m) && old(self).spec_read_fail() == Some(
                m,
            )),
    {
        let ghost served0 = self.spec_served();
        let ghost pending0 = self.spec_fail_pending();
        let mut items: Vec<Result<T, Error<T::Fail>>> = Vec::new();
        let mut going = true;
        while going
            invariant
                self.wf(),
                self.spec_lines() == old(self).spec_lines(),
                self.spec_captured() == old(self).spec_captured(),
                self.spec_has_child() == old(self).spec_has_child(),
                self.spec_read_fail() == old(self).spec_read_fail(),
                served0 == old(self).spec_served(),
                pending0 == old(self).spec_fail_pending(),
                served0 <= self.spec_served() <= self.spec_lines().len(),
                !pending0 ==> !self.spec_fail_pending(),
                items@.len() == self.spec_served() - served0 + (
                if pending0 && !self.spec_fail_pending() {
                    1int
                } else {
                    0int
                }),
                forall|i: int|
                    0 <= i < self.spec_served() - served0 ==> item_matches::<T>(
                        self.spec_lines()[served0 + i],
                        #[trigger] items@[i],
                    ),
                pending0 && !self.spec_fail_pending() ==> {
                    &&& self.spec_served() == self.spec_lines().len()
                    &&& (items@.last() matches Err(e) && e matches Error::StdoutUnreadable(m)
                        && self.spec_read_fail() == Some(m))
                },
                !going ==> {
                    &&& self.spec_served() == self.spec_lines().len()
                    &&& !self.spec_fail_pending()
                },
            decreases self.spec_left(), (if going {
                1int
            } else {
                0int
            }),
        {
            match self.next_item() {
                Some(r) => items.push(r),
                None => {
                    going = false;
                },
            }
        }
        items
    }

    /// Waits for the child once and reconciles its exit status, a failed
    /// exit carrying the captured output; the stream's items are unaffected.
    /// On a stream with no child to wait on this succeeds.
    pub fn finish(&mut self) -> (r: Result<(), Error<T::Fail>>)
        requires
            old(self).wf(),
        ensures
            final(self).wf(),
            final(self).spec_lines() == old(self).spec_lines(),
            final(self).spec_served() == old(self).spec_served(),
            final(self).spec_fail_pending() == old(self).spec_fail_pending(),
            !final(self).spec_has_child(),
            !old(self).spec_has_child() ==> r == Result::<(), Error<T::Fail>>::Ok(()),
            exists|w: Result<ExitReport, String>|
                reconciles::<T::Fail>(w, old(self).spec_captured(), r),
            r matches Err(e) ==> e is WaitFailed || e is ProcessFailed,
    {
        let r = self.source.finish::<T::Fail>();
        proof {
            let w = choose|w: Result<ExitReport, String>|
                reconciles::<T::Fail>(w, old(self).source.spec_captured(), r);
            assert(reconciles::<T::Fail>(w, old(self).spec_captured(), r));
        }
        r
    }
}

/// A stream of parsed values: lines that fail to decode or parse leave no
/// trace, and a read failure is dropped the same way.
pub struct ValueStream<T> {
    source: LineStream,
    marker: PhantomData<T>,
}

impl<T: FromOutput> ValueStream<T> {
    pub closed spec fn wf(&self) -> bool {
        self.source.wf()
    }

    pub closed spec fn spec_lines(&self) -> Seq<Seq<u8>> {
        self.source.spec_lines()
    }

    pub closed spec fn spec_served(&self) -> int {
        self.source.spec_served()
    }

    pub closed spec fn spec_fail_pending(&self) -> bool {
        self.source.spec_fail_pending()
    }

    pub closed spec fn spec_fresh(&self) -> bool {
        self.source.spec_fresh()
    }

    pub closed spec fn spec_left(&self) -> int {
        self.source.spec_left()
    }

    pub closed spec fn spec_has_child(&self) -> bool {
        self.source.spec_has_child()
    }

    pub closed spec fn spec_captured(&self) -> Seq<u8> {
        self.source.spec_captured()
    }

    /// The lines not yet pulled.
    pub open spec fn spec_remaining(&self) -> Seq<Seq<u8>> {
        self.spec_lines().skip(self.spec_served())
    }

    /// Serves a line stream under the drop item policy.
    pub fn from_source(source: LineStream) -> (s: ValueStream<T>)
        requires
            source.wf(),
        ensures
            s.wf(),
            s.spec_lines() == source.spec_lines(),
            s.spec_captured() == source.spec_captured(),
            s.spec_fresh() == source.spec_fresh(),
            s.spec_served() == source.spec_served(),
            s.spec_fail_pending() == source.spec_fail_pending(),
            s.spec_has_child() == source.spec_has_child(),
    {
        ValueStream { source, marker: PhantomData }
    }

    /// Serves the next value: the first remaining line that decodes and
    /// parses; lines that do not, and a pending read failure, are skipped
    /// silently. The exit status is never consulted.
    pub fn next_value(&mut self) -> (it: Option<T>)
        requires
            old(self).wf(),
        ensures
            final(self).wf(),
            final(self).spec_lines() == old(self).spec_lines(),
            final(self).spec_captured() == old(self).spec_captured(),
            final(self).spec_has_child() == old(self).spec_has_child(),
            it matches Some(v) ==> {
                &&& kept_lines::<T>(old(self).spec_remaining()).len() > 0
                &&& T::is_value_of(
                    decode_utf8(kept_lines::<T>(old(self).spec_remaining())[0]),
                    v,
                )
                &&& kept_lines::<T>(final(self).spec_remaining()) == kept_lines::<T>(
                    old(self).spec_remaining(),
                ).skip(1)
                &&& final(self).spec_left() < old(self).spec_left()
            },
            it is None ==> {
                &&& kept_lines::<T>(old(self).spec_remaining()).len() == 0
                &&& final(self).spec_served() == final(self).spec_lines().len()
                &&& !final(self).spec_fail_pending()
            },
    {
        loop
            invariant
                self.wf(),
                self.spec_lines() == old(self).spec_lines(),
                self.spec_captured() == old(self).spec_captured(),
                self.spec_has_child() == old(self).spec_has_child(),
                kept_lines::<T>(self.spec_remaining()) == kept_lines::<T>(
                    old(self).spec_remaining(),
                ),
                self.spec_left() <= old(self).spec_left(),
            decreases self.spec_left(),
        {
            let ghost rem = self.spec_remaining();
            let ghost lns = self.spec_lines();
            let ghost at = self.spec_served();
            match self.source.next_line() {
                LineEvent::Line(l) => {
                    proof {
                        assert(rem[0] == lns[at]);
                        assert(rem.skip(1) =~= lns.skip(at + 1));
                        assert(rem.len() > 0);
                    }
                    match parse_line::<T>(l) {
                        Ok(v) => {
                            proof {
                                assert(kept_lines::<T>(rem) == seq![rem[0]] + kept_lines::<T>(
                                    rem.skip(1),
                                ));
                                assert(kept_lines::<T>(rem)[0] == l@);
                                assert(kept_lines::<T>(rem).skip(1) =~= kept_lines::<T>(
                                    rem.skip(1),
                                ));
                            }
                            return Some(v);
                        },
                        Err(_) => {
                            proof {
                                assert(kept_lines::<T>(rem) == kept_lines::<T>(rem.skip(1)));
                            }
                        },
                    }
                },
                LineEvent::ReadFailure(_) => (),
                LineEvent::Finished => {
                    proof {
                        assert(self.spec_remaining() =~= Seq::<Seq<u8>>::empty());
                    }
                    return None;
                },
            }
        }
    }

    /// Drains the stream: every remaining value, in line order.
    pub fn collect_remaining(&mut self) -> (items: Vec<T>)
        requires
            old(self).wf(),
        ensures
            final(self).wf(),
            final(self).spec_lines() == old(self).spec_lines(),
            final(self).spec_captured() == old(self).spec_captured(),
            final(self).spec_has_child() == old(self).spec_has_child(),
            final(self).spec_served() == final(self).spec_lines().len(),
            !final(self).spec_fail_pending(),
            items@.len() == kept_lines::<T>(old(self).spec_remaining()).len(),
            forall|i: int|
                0 <= i < items@.len() ==> T::is_value_of(
                    decode_utf8(kept_lines::<T>(old(self).spec_remaining())[i]),
                    #[trigger] items@[i],
                ),
    {
        let ghost kept0 = kept_lines::<T>(old(self).spec_remaining());
        let mut items: Vec<T> = Vec::new();
        let mut going = true;
        while going
            invariant
                self.wf(),
                self.spec_lines() == old(self).spec_lines(),
                self.spec_captured() == old(self).spec_captured(),
                self.spec_has_child() == old(self).spec_has_child(),
                kept0 == kept_lines::<T>(old(self).spec_remaining()),
                items@.len() <= kept0.len(),
                kept_lines::<T>(self.spec_remaining()) =~= kept0.skip(items@.len() as int),
                forall|i: int|
                    0 <= i < items@.len() ==> T::is_value_of(
                        decode_utf8(kept0[i]),
                        #[trigger] items@[i],
                    ),
                !going ==> {
                    &&& items@.len() == kept0.len()
                    &&& self.spec_served() == self.spec_lines().len()
                    &&& !self.spec_fail_pending()
                },
            decreases self.spec_left(), (if going {
                1int
            } else {
                0int
            }),
        {
            let ghost before = kept_lines::<T>(self.spec_remaining());
            match self.next_value() {
                Some(v) => {
                    proof {
                        assert(before[0] == kept0[items@.len() as int]);
                        assert(before.skip(1) =~= kept0.skip(items@.len() as int + 1));
                    }
                    items.push(v);
                },
                None => {
                    proof {
                        assert(before.len() == 0);
                        assert(items@.len() == kept0.len());
                    }
                    going = false;
                },
            }
        }
        items
    }

    /// Waits for the child once and reconciles its exit status, a failed
    /// exit carrying the captured output; the stream's values are
    /// unaffected. On a stream with no child to wait on this succeeds.
    pub fn finish(&mut self) -> (r: Result<(), Error<T::Fail>>)
        requires
            old(self).wf(),
        ensures
            final(self).wf(),
            final(self).spec_lines() == old(self).spec_lines(),
            final(self).spec_served() == old(self).spec_served(),
            final(self).spec_fail_pending() == old(self).spec_fail_pending(),
            !final(self).spec_has_child(),
            !old(self).spec_has_child() ==> r == Result::<(), Error<T::Fail>>::Ok(()),
            exists|w: Result<ExitReport, String>|
                reconciles::<T::Fail>(w, old(self).spec_captured(), r),
            r matches Err(e) ==> e is WaitFailed || e is ProcessFailed,
    {
        let r = self.source.finish::<T::Fail>();
        proof {
            let w = choose|w: Result<ExitReport, String>|
                reconciles::<T::Fail>(w, old(self).source.spec_captured(), r);
            assert(reconciles::<T::Fail>(w, old(self).spec_captured(), r));
        }
        r
    }
}

/// Captures everything the child writes and turns it into a line stream; the
/// child is not waited on here, so its exit status stays unexamined until the
/// stream is finished or dropped.
pub(crate) fn open_stream(child: subprocess::Job) -> (s: LineStream)
    ensures
        s.wf(),
        s.spec_fresh(),
        s.spec_served() == 0,
        s.spec_has_child(),
{
    let mut child = child;
    let mut bytes: Vec<u8> = Vec::new();
    let read_fail = crate::os::os_read_all(&mut child, &mut bytes);
    LineStream::over(child, bytes, read_fail)
}

} // verus!
