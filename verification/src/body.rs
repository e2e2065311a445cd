use crate::error::{client_error, HttpError, HttpErrorView, BAD_REQUEST};
use crate::text::{decimal, push_decimal};
use vstd::prelude::*;
use vstd::string::StringExecFns;

verus! {

/// The number of bytes in all of `chunks`.
pub open spec fn total_len(chunks: Seq<Seq<u8>>) -> nat
    decreases chunks.len(),
{
    if chunks.len() == 0 {
        0
    } else {
        total_len(chunks.drop_last()) + chunks.last().len()
    }
}

/// The bytes of all of `chunks`, in order.
pub open spec fn joined(chunks: Seq<Seq<u8>>) -> Seq<u8>
    decreases chunks.len(),
{
    if chunks.len() == 0 {
        Seq::empty()
    } else {
        joined(chunks.drop_last()) + chunks.last()
    }
}

/// The text in front of the cap in the message of a body that went over it.
pub const OVERFLOW_PREFIX: &'static str = "request body exceeded maximum size of ";

/// The text behind the cap in the message of a body that went over it.
pub const OVERFLOW_SUFFIX: &'static str = " bytes";

/// The message of a body that went over a cap of `cap` bytes.
pub open spec fn overflow_message(cap: nat) -> Seq<char> {
    OVERFLOW_PREFIX@ + decimal(cap) + OVERFLOW_SUFFIX@
}

/// The error of a body that went over a cap of `cap` bytes.
pub open spec fn overflow_error(cap: nat) -> HttpErrorView {
    client_error(BAD_REQUEST, overflow_message(cap))
}

/// What a `BodyReader` holds: the cap, the bytes kept so far, and whether the
/// body went over the cap.
pub ghost struct BodyReaderView {
    pub cap: nat,
    pub kept: Seq<u8>,
    pub overflowed: bool,
}

impl BodyReaderView {
    /// The reader of a body that has not begun.
    pub open spec fn start(cap: nat) -> BodyReaderView {
        BodyReaderView { cap, kept: Seq::empty(), overflowed: false }
    }

    /// The reader after one more chunk. A chunk that would take the bytes
    /// kept over the cap ends the keeping: from then on every chunk is read
    /// and dropped.
    pub open spec fn accept(self, chunk: Seq<u8>) -> BodyReaderView {
        if self.overflowed || self.kept.len() + chunk.len() > self.cap {
            BodyReaderView { cap: self.cap, kept: Seq::empty(), overflowed: true }
        } else {
            BodyReaderView { cap: self.cap, kept: self.kept + chunk, overflowed: false }
        }
    }

    /// The reader after `chunks`, one after the other.
    pub open spec fn accept_all(self, chunks: Seq<Seq<u8>>) -> BodyReaderView
        decreases chunks.len(),
    {
        if chunks.len() == 0 {
            self
        } else {
            self.accept_all(chunks.drop_last()).accept(chunks.last())
        }
    }

    /// What the reader hands out at the end of the body: the bytes, or the
    /// error of a body over the cap.
    pub open spec fn outcome(self) -> Result<Seq<u8>, HttpErrorView> {
        if self.overflowed {
            Err(overflow_error(self.cap))
        } else {
            Ok(self.kept)
        }
    }
}

/// What reading a whole body of `chunks` under a cap of `cap` bytes gives:
/// all the bytes if they are no more than the cap, else the error.
pub open spec fn read_body(cap: nat, chunks: Seq<Seq<u8>>) -> Result<Seq<u8>, HttpErrorView> {
    if total_len(chunks) > cap {
        Err(overflow_error(cap))
    } else {
        Ok(joined(chunks))
    }
}

/// Reads a body chunk by chunk and keeps its bytes, up to a cap. It takes
/// every chunk to the end of the body, also when the cap is passed, so that
/// the connection can carry the next request.
pub struct BodyReader {
    cap: usize,
    kept: Vec<u8>,
    overflowed: bool,
}

impl View for BodyReader {
    type V = BodyReaderView;

    closed spec fn view(&self) -> BodyReaderView {
        BodyReaderView { cap: self.cap as nat, kept: self.kept@, overflowed: self.overflowed }
    }
}

impl BodyReader {
    /// A reader for a body of at most `cap` bytes.
    pub fn new(cap: usize) -> (reader: Self)
        ensures
            reader@ == BodyReaderView::start(cap as nat),
    {
        BodyReader { cap, kept: Vec::new(), overflowed: false }
    }

    /// Takes the next chunk of the body.
    pub fn accept(&mut self, chunk: &[u8])
        ensures
            final(self)@ == old(self)@.accept(chunk@),
    {
        if self.overflowed || self.kept.len() > self.cap || chunk.len() > self.cap
            - self.kept.len() {
            self.kept = Vec::new();
            self.overflowed = true;
        } else {
            self.kept.extend_from_slice(chunk);
        }
        assert(self@.kept =~= old(self)@.accept(chunk@).kept);
    }

    /// True once the body went over the cap.
    pub fn overflowed(&self) -> (b: bool)
        ensures
            b == self@.overflowed,
    {
        self.overflowed
    }

    /// Ends the reading at the end of the body: hands out the bytes, or the
    /// error that names the cap.
    pub fn finish(self) -> (r: Result<Vec<u8>, HttpError>)
        ensures
            body_result_view(r) == self@.outcome(),
    {
        if self.overflowed {
            let mut message = String::from_str(OVERFLOW_PREFIX);
            push_decimal(&mut message, self.cap as u64);
            message.append(OVERFLOW_SUFFIX);
            Err(HttpError::for_bad_request(message))
        } else {
            Ok(self.kept)
        }
    }
}

/// The view of what a reader hands out.
pub open spec fn body_result_view(r: Result<Vec<u8>, HttpError>) -> Result<Seq<u8>, HttpErrorView> {
    match r {
        Ok(bytes) => Ok(bytes@),
        Err(e) => Err(e@),
    }
}

/// The count of a drain after one more chunk of `len` bytes: the sum, or
/// the largest count there is if the sum is beyond it.
pub open spec fn drained_after(count: usize, len: nat) -> usize {
    if count + len <= usize::MAX {
        (count + len) as usize
    } else {
        usize::MAX
    }
}

/// The count of a drain that began at `count`, after `chunks`.
pub open spec fn drained_after_all(count: usize, chunks: Seq<Seq<u8>>) -> usize
    decreases chunks.len(),
{
    if chunks.len() == 0 {
        count
    } else {
        drained_after(drained_after_all(count, chunks.drop_last()), chunks.last().len())
    }
}

/// Reads a body chunk by chunk and drops it, counting the bytes. It is used
/// wherever a body has to leave the connection unread.
pub struct BodyDrain {
    discarded: usize,
}

impl View for BodyDrain {
    type V = usize;

    closed spec fn view(&self) -> usize {
        self.discarded
    }
}

impl BodyDrain {
    /// A drain that has dropped nothing yet.
    pub fn new() -> (drain: Self)
        ensures
            drain@ == 0,
    {
        BodyDrain { discarded: 0 }
    }

    /// Drops the next chunk of the body.
    pub fn discard(&mut self, chunk: &[u8])
        ensures
            final(self)@ == drained_after(old(self)@, chunk@.len()),
    {
        self.discarded = match self.discarded.checked_add(chunk.len()) {
            Some(sum) => sum,
            None => usize::MAX,
        };
    }

    /// The number of bytes dropped so far, or the largest number there is if
    /// they were more.
    pub fn discarded(&self) -> (count: usize)
        ensures
            count == self@,
    {
        self.discarded
    }
}

/// Joining chunks keeps every byte: the joined bytes are as many as the
/// chunks hold.
pub proof fn lemma_joined_len(chunks: Seq<Seq<u8>>)
    ensures
        joined(chunks).len() == total_len(chunks),
    decreases chunks.len(),
{
    if chunks.len() > 0 {
        lemma_joined_len(chunks.drop_last());
    }
}

/// The reader that has taken all of `chunks` from the start has gone over
/// the cap exactly if the chunks hold more bytes than the cap; if not, it
/// has kept all the bytes in order.
pub proof fn lemma_reader_reads_whole_body(cap: nat, chunks: Seq<Seq<u8>>)
    ensures
        BodyReaderView::start(cap).accept_all(chunks).outcome() == read_body(cap, chunks),
        BodyReaderView::start(cap).accept_all(chunks).cap == cap,
        BodyReaderView::start(cap).accept_all(chunks).overflowed <==> total_len(chunks) > cap,
        !BodyReaderView::start(cap).accept_all(chunks).overflowed
            ==> BodyReaderView::start(cap).accept_all(chunks).kept == joined(chunks),
    decreases chunks.len(),
{
    lemma_joined_len(chunks);
    if chunks.len() > 0 {
        lemma_joined_len(chunks.drop_last());
        lemma_reader_reads_whole_body(cap, chunks.drop_last());
    }
}

/// A drain that began empty counts the bytes of all chunks it dropped, up to
/// the largest count there is. So its count is zero exactly if the body was
/// empty.
pub proof fn lemma_drain_counts_whole_body(chunks: Seq<Seq<u8>>)
    ensures
        total_len(chunks) <= usize::MAX ==> drained_after_all(0, chunks) == total_len(chunks),
        total_len(chunks) > usize::MAX ==> drained_after_all(0, chunks) == usize::MAX,
        drained_after_all(0, chunks) == 0 <==> total_len(chunks) == 0,
    decreases chunks.len(),
{
    if chunks.len() > 0 {
        lemma_drain_counts_whole_body(chunks.drop_last());
    }
}

} // verus!
