use vstd::prelude::*;

verus! {

/// The newline byte that separates output lines.
pub open spec fn nl() -> u8 {
    10
}

/// The carriage-return byte stripped from a line that ended in it.
pub open spec fn cr() -> u8 {
    13
}

/// A line with a trailing carriage return loses it: the line separator is
/// either a lone newline or a carriage return followed by a newline.
pub open spec fn chomp_cr(l: Seq<u8>) -> Seq<u8> {
    if l.len() > 0 && l.last() == cr() {
        l.drop_last()
    } else {
        l
    }
}

/// The index of the first newline byte, or the length when there is none.
pub open spec fn first_nl(b: Seq<u8>) -> int
    decreases b.len(),
{
    if b.len() == 0 {
        0
    } else if b[0] == nl() {
        0
    } else {
        1 + first_nl(b.skip(1))
    }
}

pub proof fn lemma_first_nl_bounds(b: Seq<u8>)
    ensures
        0 <= first_nl(b) <= b.len(),
        first_nl(b) < b.len() ==> b[first_nl(b)] == nl(),
        forall|j: int| 0 <= j < first_nl(b) ==> b[j] != nl(),
    decreases b.len(),
{
    if b.len() > 0 && b[0] != nl() {
        lemma_first_nl_bounds(b.skip(1));
        assert forall|j: int| 0 <= j < first_nl(b) implies b[j] != nl() by {
            if j > 0 {
                assert(b.skip(1)[j - 1] == b[j]);
            }
        }
        if first_nl(b) < b.len() {
            assert(b.skip(1)[first_nl(b) - 1] == b[first_nl(b)]);
        }
    }
}

/// `first_nl` is the only index with no newline before it and a newline (or
/// the end) at it.
pub proof fn lemma_first_nl_unique(b: Seq<u8>, i: int)
    requires
        0 <= i <= b.len(),
        forall|j: int| 0 <= j < i ==> b[j] != nl(),
        i < b.len() ==> b[i] == nl(),
    ensures
        first_nl(b) == i,
    decreases b.len(),
{
    if b.len() > 0 && b[0] != nl() {
        assert forall|j: int| 0 <= j < i - 1 implies b.skip(1)[j] != nl() by {
            assert(b.skip(1)[j] == b[j + 1]);
        }
        if i < b.len() {
            assert(b.skip(1)[i - 1] == b[i]);
        }
        lemma_first_nl_unique(b.skip(1), i - 1);
    }
}

/// The lines of a byte stream: the stream is cut at every newline byte, each
/// piece loses a trailing carriage return, and a final piece without a
/// newline is a line only when it is not empty.
pub open spec fn split_lines_spec(b: Seq<u8>) -> Seq<Seq<u8>>
    decreases b.len(),
    via split_lines_spec_decreases
{
    if b.len() == 0 {
        Seq::empty()
    } else {
        let i = first_nl(b);
        if i < b.len() {
            seq![chomp_cr(b.take(i))] + split_lines_spec(b.skip(i + 1))
        } else {
            seq![b]
        }
    }
}

#[via_fn]
proof fn split_lines_spec_decreases(b: Seq<u8>) {
    lemma_first_nl_bounds(b);
}

/// Splits captured output into its lines.
pub fn split_lines(bytes: &Vec<u8>) -> (r: Vec<Vec<u8>>)
    ensures
        r.deep_view() == split_lines_spec(bytes@),
{
    let n = bytes.len();
    let mut out: Vec<Vec<u8>> = Vec::new();
    let mut start: usize = 0;
    proof {
        assert(bytes@.skip(0) =~= bytes@);
    }
    while start < n
        invariant
            0 <= start <= n == bytes@.len(),
            split_lines_spec(bytes@) =~~= out.deep_view() + split_lines_spec(
                bytes@.skip(start as int),
            ),
        decreases n - start,
    {
        let ghost suffix = bytes@.skip(start as int);
        // Find the first newline at or after `start`.
        let mut j = start;
        while j < n && bytes[j] != 10u8
            invariant
                start <= j <= n == bytes@.len(),
                forall|k: int| start <= k < j ==> bytes@[k] != nl(),
            decreases n - j,
        {
            j = j + 1;
        }
        proof {
            assert forall|k: int| 0 <= k < j - start implies suffix[k] != nl() by {
                assert(suffix[k] == bytes@[start + k]);
            }
            if j < n {
                assert(suffix[j - start] == bytes@[j as int]);
            }
            lemma_first_nl_unique(suffix, j - start);
        }
        // Copy the line out of the buffer.
        let mut line: Vec<u8> = Vec::new();
        let mut k = start;
        while k < j
            invariant
                start <= k <= j <= n == bytes@.len(),
                line@ =~~= bytes@.subrange(start as int, k as int),
            decreases j - k,
        {
            line.push(bytes[k]);
            k = k + 1;
        }
        assert(line@ =~~= suffix.take(j - start));
        if j < n {
            // The piece before the newline, without a trailing carriage return.
            if line.len() > 0 && line[line.len() - 1] == 13u8 {
                line.pop();
                assert(line@ =~~= chomp_cr(suffix.take(j - start)));
            }
            assert(line@ =~~= chomp_cr(suffix.take(j - start)));
            out.push(line);
            proof {
                assert(suffix.skip(j - start + 1) =~~= bytes@.skip(j + 1));
            }
            start = j + 1;
        } else {
            // The final piece has no newline: it is a line as it stands.
            assert(line@ =~~= suffix);
            out.push(line);
            proof {
                assert(bytes@.skip(n as int) =~~= Seq::<u8>::empty());
            }
            start = n;
        }
    }
    proof {
        assert(bytes@.skip(n as int) =~~= Seq::<u8>::empty());
        assert(out.deep_view() =~~= split_lines_spec(bytes@));
    }
    out
}

} // verus!
