//! Splitting a byte stream into lines, whatever the chunk boundaries.

use vstd::prelude::*;

verus! {

/// The byte that ends a line.
pub const NEWLINE: u8 = 10;

/// The byte that may precede the line end and is not part of the line.
pub const CARRIAGE_RETURN: u8 = 13;

/// The bytes that follow the last line end of `data`: the line still open.
pub open spec fn partial_line(data: Seq<u8>) -> Seq<u8>
    decreases data.len(),
{
    if data.len() == 0 {
        Seq::empty()
    } else if data.last() == NEWLINE {
        Seq::empty()
    } else {
        partial_line(data.drop_last()).push(data.last())
    }
}

/// The lines of `data` that a line end has closed, in order, each without
/// its line end.
pub open spec fn complete_lines(data: Seq<u8>) -> Seq<Seq<u8>>
    decreases data.len(),
{
    if data.len() == 0 {
        Seq::empty()
    } else if data.last() == NEWLINE {
        complete_lines(data.drop_last()).push(partial_line(data.drop_last()))
    } else {
        complete_lines(data.drop_last())
    }
}

/// The lines of `lines`, each followed by a line end, one after another.
pub open spec fn join_lines(lines: Seq<Seq<u8>>) -> Seq<u8>
    decreases lines.len(),
{
    if lines.len() == 0 {
        Seq::empty()
    } else {
        join_lines(lines.drop_last()) + lines.last().push(NEWLINE)
    }
}

/// No byte of `line` is a line end.
pub open spec fn no_newline(line: Seq<u8>) -> bool {
    forall|i: int| 0 <= i < line.len() ==> line[i] != NEWLINE
}

/// The closed lines followed by the open line give back the data, and no
/// line holds a line end: the split loses nothing and cuts at every line end.
pub proof fn lemma_lines_rejoin(data: Seq<u8>)
    ensures
        join_lines(complete_lines(data)) + partial_line(data) == data,
        no_newline(partial_line(data)),
        forall|k: int|
            0 <= k < complete_lines(data).len() ==> no_newline(#[trigger] complete_lines(data)[k]),
    decreases data.len(),
{
    if data.len() > 0 {
        let front = data.drop_last();
        lemma_lines_rejoin(front);
        if data.last() == NEWLINE {
            let lines = complete_lines(data);
            assert(lines.drop_last() == complete_lines(front));
            assert(lines.last() == partial_line(front));
            assert(join_lines(lines) == join_lines(complete_lines(front)) + partial_line(
                front,
            ).push(NEWLINE));
            assert(join_lines(complete_lines(front)) + partial_line(front).push(NEWLINE) == (
                join_lines(complete_lines(front)) + partial_line(front)).push(NEWLINE));
            assert(front.push(NEWLINE) == data);
            assert(join_lines(lines) + partial_line(data) == join_lines(lines));
            assert forall|k: int| 0 <= k < lines.len() implies no_newline(#[trigger] lines[k]) by {
                if k < lines.len() - 1 {
                    assert(lines[k] == complete_lines(front)[k]);
                }
            }
        } else {
            assert(join_lines(complete_lines(front)) + partial_line(front).push(data.last()) == (
                join_lines(complete_lines(front)) + partial_line(front)).push(data.last()));
            assert(front.push(data.last()) == data);
        }
    }
}

/// Reading `first` and then `second` closes the same lines, and leaves the
/// same line open, as reading the two as one piece.
pub proof fn lemma_split_anywhere(first: Seq<u8>, second: Seq<u8>)
    ensures
        complete_lines(first + second) == complete_lines(first) + complete_lines(
            partial_line(first) + second,
        ),
        partial_line(first + second) == partial_line(partial_line(first) + second),
    decreases second.len(),
{
    if second.len() == 0 {
        assert(first + second == first);
        lemma_partial_is_open(first);
        assert(partial_line(first) + second == partial_line(first));
    } else {
        let whole = first + second;
        let carried = partial_line(first) + second;
        assert(whole.drop_last() == first + second.drop_last());
        assert(carried.drop_last() == partial_line(first) + second.drop_last());
        lemma_split_anywhere(first, second.drop_last());
    }
}

/// A line that is still open closes no line and stays as it is.
pub proof fn lemma_partial_is_open(data: Seq<u8>)
    ensures
        complete_lines(partial_line(data)) == Seq::<Seq<u8>>::empty(),
        partial_line(partial_line(data)) == partial_line(data),
    decreases data.len(),
{
    if data.len() > 0 && data.last() != NEWLINE {
        lemma_partial_is_open(data.drop_last());
        let open = partial_line(data);
        assert(open.drop_last() == partial_line(data.drop_last()));
    }
}

/// Data without a line end closes no line and is itself the open line.
pub proof fn lemma_open_line(data: Seq<u8>)
    requires
        no_newline(data),
    ensures
        complete_lines(data) == Seq::<Seq<u8>>::empty(),
        partial_line(data) == data,
    decreases data.len(),
{
    if data.len() > 0 {
        lemma_open_line(data.drop_last());
        assert(data.drop_last().push(data.last()) == data);
    }
}

/// The byte sequences that the vectors of `lines` hold, in order.
pub open spec fn line_bytes(lines: Seq<Vec<u8>>) -> Seq<Seq<u8>> {
    lines.map_values(|line: Vec<u8>| line@)
}

/// The reader's state between two chunks: the bytes of the line that no
/// line end has closed yet.
pub struct LineReader {
    pending: Vec<u8>,
}

impl View for LineReader {
    type V = Seq<u8>;

    closed spec fn view(&self) -> Seq<u8> {
        self.pending@
    }
}

impl LineReader {
    #[verifier::type_invariant]
    spec fn holds_no_line_end(&self) -> bool {
        no_newline(self.pending@)
    }

    /// A reader that has seen nothing.
    pub fn new() -> (reader: Self)
        ensures
            reader@ == Seq::<u8>::empty(),
    {
        LineReader { pending: Vec::new() }
    }

    /// Takes the next chunk and hands out the lines that it closes, in
    /// order; the bytes after the last line end wait for the next chunk.
    pub fn feed(&mut self, chunk: &[u8]) -> (lines: Vec<Vec<u8>>)
        ensures
            line_bytes(lines@) == complete_lines(old(self)@ + chunk@),
            final(self)@ == partial_line(old(self)@ + chunk@),
            no_newline(old(self)@),
    {
        proof {
            use_type_invariant(&*self);
            lemma_open_line(self.pending@);
        }
        let ghost before = self.pending@;
        let mut lines: Vec<Vec<u8>> = Vec::new();
        let mut current: Vec<u8> = Vec::new();
        std::mem::swap(&mut current, &mut self.pending);
        let mut at: usize = 0;
        assert(before + chunk@.subrange(0, 0) == before);
        assert(line_bytes(lines@) == Seq::<Seq<u8>>::empty());
        while at < chunk.len()
            invariant
                at <= chunk.len(),
                self.pending@.len() == 0,
                line_bytes(lines@) == complete_lines(before + chunk@.subrange(0, at as int)),
                current@ == partial_line(before + chunk@.subrange(0, at as int)),
            decreases chunk.len() - at,
        {
            let byte = chunk[at];
            let ghost seen = before + chunk@.subrange(0, at as int);
            let ghost next = before + chunk@.subrange(0, at as int + 1);
            assert(next.drop_last() == seen);
            assert(next.last() == byte);
            if byte == NEWLINE {
                let mut line: Vec<u8> = Vec::new();
                std::mem::swap(&mut line, &mut current);
                let ghost earlier = line_bytes(lines@);
                lines.push(line);
                assert(line_bytes(lines@) == earlier.push(line@));
            } else {
                current.push(byte);
            }
            at = at + 1;
        }
        assert(chunk@.subrange(0, at as int) == chunk@);
        proof {
            lemma_lines_rejoin(before + chunk@);
        }
        self.pending = current;
        lines
    }

    /// Ends the stream: hands out the open line, if it holds anything, and
    /// leaves the reader empty.
    pub fn finish(&mut self) -> (last: Option<Vec<u8>>)
        ensures
            final(self)@ == Seq::<u8>::empty(),
            old(self)@.len() == 0 ==> last is None,
            old(self)@.len() > 0 ==> last is Some && last->0@ == old(self)@,
    {
        let mut line: Vec<u8> = Vec::new();
        std::mem::swap(&mut line, &mut self.pending);
        if line.len() == 0 {
            None
        } else {
            Some(line)
        }
    }
}

} // verus!
