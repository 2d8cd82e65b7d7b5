//! Reading a file that arrives in pieces.
//!
//! A [`GGUFReader`] gathers the bytes read so far. Each round hands it what
//! a read gave; it appends that, decodes the whole from the first byte
//! again, and says whether the file is complete, whether to read on, or
//! that reading is over. Nothing is kept from one attempt to the next but
//! the bytes.
use vstd::prelude::*;
use bytes::BytesMut;
use crate::error::{DecodeError, GGUFError};
use crate::grammar::spec_file;
use crate::prefix::lemma_file_extends;
use crate::progress::lemma_file_advances;
use crate::trusted::{buffer_as_slice, buffer_bytes, buffer_limit};
use crate::types::{FileView, GGUFFile};

verus! {

/// Why reading a file in pieces ended without a file.
#[derive(Debug, Clone, Copy, PartialEq, Eq, Structural)]
pub enum ReadError {
    /// A read gave no bytes while the file was still incomplete.
    Truncated,
    /// The bytes gathered so far are not a file, whatever may follow.
    Malformed(GGUFError),
}

/// The bytes of a file gathered so far, and by how much to grow the room
/// for them before each further read.
pub struct GGUFReader {
    buffer: BytesMut,
    growth_increment: usize,
}

/// What one round comes to: `buffered` are the bytes gathered before it,
/// `chunk` what the read gave. `Ok(None)` asks for another round.
pub open spec fn spec_round(buffered: Seq<u8>, chunk: Seq<u8>) -> Result<
    Option<FileView>,
    ReadError,
> {
    if chunk.len() == 0 {
        Err(ReadError::Truncated)
    } else {
        match spec_file(buffered + chunk) {
            Ok((_, file)) => Ok(Some(file)),
            Err(DecodeError::NeedMoreBytes) => Ok(None),
            Err(DecodeError::Malformed(e)) => Err(ReadError::Malformed(e)),
        }
    }
}

/// What reading comes to when the source gives `chunks`, one per read, and
/// after them nothing: a read that gives no bytes. `buffered` are the bytes
/// gathered before the first of them.
pub open spec fn spec_read(buffered: Seq<u8>, chunks: Seq<Seq<u8>>) -> Result<
    FileView,
    ReadError,
>
    decreases chunks.len(),
{
    if chunks.len() == 0 {
        Err(ReadError::Truncated)
    } else {
        match spec_round(buffered, chunks[0]) {
            Ok(Some(file)) => Ok(file),
            Ok(None) => spec_read(buffered + chunks[0], chunks.drop_first()),
            Err(e) => Err(e),
        }
    }
}

/// The chunks laid end to end.
pub open spec fn concat(chunks: Seq<Seq<u8>>) -> Seq<u8>
    decreases chunks.len(),
{
    if chunks.len() == 0 {
        Seq::empty()
    } else {
        chunks[0] + concat(chunks.drop_first())
    }
}

/// The chunks as byte sequences.
pub open spec fn chunks_view(chunks: Seq<Vec<u8>>) -> Seq<Seq<u8>> {
    Seq::new(chunks.len(), |i: int| chunks[i]@)
}

impl View for GGUFReader {
    type V = Seq<u8>;

    /// The bytes gathered so far.
    closed spec fn view(&self) -> Seq<u8> {
        buffer_bytes(self.buffer)
    }
}

impl GGUFReader {
    /// By how much the room for bytes grows before each further read.
    pub closed spec fn spec_growth_increment(&self) -> usize {
        self.growth_increment
    }

    /// By how much the room for bytes grows before each further read.
    #[verifier::when_used_as_spec(spec_growth_increment)]
    pub fn growth_increment(&self) -> (n: usize)
        ensures
            n == self.spec_growth_increment(),
    {
        self.growth_increment
    }

    /// A reader that has gathered nothing, with room for `initial_capacity`
    /// bytes.
    pub fn new(initial_capacity: usize, growth_increment: usize) -> (reader: Self)
        requires
            initial_capacity <= isize::MAX,
        ensures
            reader@ == Seq::<u8>::empty(),
            reader.growth_increment() == growth_increment,
    {
        GGUFReader { buffer: BytesMut::with_capacity(initial_capacity), growth_increment }
    }

    /// The number of bytes gathered so far.
    pub fn len(&self) -> (n: usize)
        ensures
            n == self@.len(),
    {
        buffer_as_slice(&self.buffer).len()
    }

    /// The bytes gathered so far.
    pub fn bytes(&self) -> (gathered: &[u8])
        ensures
            gathered@ == self@,
    {
        buffer_as_slice(&self.buffer)
    }

    /// True when a chunk of `n` bytes can be fed: when the bytes gathered,
    /// the chunk and the growth increment together stay within the limit.
    pub open spec fn spec_has_room(&self, n: usize) -> bool {
        self@.len() + n + self.growth_increment() <= buffer_limit()
    }

    /// True when a chunk of `n` bytes can be fed.
    #[verifier::when_used_as_spec(spec_has_room)]
    pub fn has_room(&self, n: usize) -> (b: bool)
        ensures
            b == self.spec_has_room(n),
    {
        let limit: usize = (isize::MAX / 2) as usize;
        let len = self.len();
        len <= limit && n <= limit - len && self.growth_increment <= limit - len - n
    }

    /// One round: takes what a read gave and decodes all that is gathered.
    ///
    /// An empty `chunk` means that the source is exhausted, which ends the
    /// reading as truncated. Otherwise the chunk is kept, and the result is
    /// the file, or `Ok(None)` to ask for the next read, or the malformation
    /// found. Before asking for the next read the room for bytes is grown.
    pub fn feed(&mut self, chunk: &[u8]) -> (r: Result<Option<GGUFFile>, ReadError>)
        requires
            old(self).has_room(chunk@.len() as usize),
        ensures
            final(self).growth_increment() == old(self).growth_increment(),
            final(self)@ == if chunk@.len() == 0 {
                old(self)@
            } else {
                old(self)@ + chunk@
            },
            match r {
                Ok(Some(file)) => spec_round(old(self)@, chunk@) == Ok::<_, ReadError>(
                    Some(file@),
                ),
                Ok(None) => spec_round(old(self)@, chunk@) == Ok::<_, ReadError>(
                    None::<FileView>,
                ),
                Err(e) => spec_round(old(self)@, chunk@) == Err::<Option<FileView>, _>(e),
            },
    {
        if chunk.len() == 0 {
            return Err(ReadError::Truncated);
        }
        self.buffer.extend_from_slice(chunk);
        match GGUFFile::read(buffer_as_slice(&self.buffer)) {
            Ok(Some(file)) => Ok(Some(file)),
            Ok(None) => {
                self.buffer.reserve(self.growth_increment);
                Ok(None)
            },
            Err(e) => Err(ReadError::Malformed(e)),
        }
    }
}

/// Reads a file from a source that has been drained into `chunks`, one
/// chunk per read: feeds them to a fresh reader in order, and stops at the
/// first round that settles the matter. Where the chunks run out before
/// that, the file is truncated.
pub fn read_gguf_chunks(chunks: &[Vec<u8>], initial_capacity: usize, growth_increment: usize) -> (r:
    Result<GGUFFile, ReadError>)
    requires
        initial_capacity <= isize::MAX,
        concat(chunks_view(chunks@)).len() + growth_increment <= buffer_limit(),
    ensures
        match r {
            Ok(file) => spec_read(Seq::empty(), chunks_view(chunks@)) == Ok::<_, ReadError>(
                file@,
            ),
            Err(e) => spec_read(Seq::empty(), chunks_view(chunks@)) == Err::<FileView, _>(e),
        },
{
    let mut reader = GGUFReader::new(initial_capacity, growth_increment);
    let ghost all = chunks_view(chunks@);
    let mut i: usize = 0;
    proof {
        assert(all.skip(0) =~= all);
        assert(reader@ + concat(all.skip(0)) =~= concat(all));
    }
    while i < chunks.len()
        invariant
            i <= chunks.len(),
            all == chunks_view(chunks@),
            reader.growth_increment() == growth_increment,
            reader@ + concat(all.skip(i as int)) == concat(all),
            concat(all).len() + growth_increment <= buffer_limit(),
            spec_read(Seq::empty(), all) == spec_read(reader@, all.skip(i as int)),
        decreases chunks.len() - i,
    {
        let ghost rest = all.skip(i as int);
        proof {
            assert(rest[0] == chunks@[i as int]@);
            assert(rest.drop_first() =~= all.skip(i + 1));
            assert((reader@ + rest[0]) + concat(rest.drop_first()) =~= reader@ + concat(rest));
        }
        match reader.feed(chunks[i].as_slice()) {
            Ok(Some(file)) => return Ok(file),
            Ok(None) => {},
            Err(e) => return Err(e),
        }
        i += 1;
    }
    Err(ReadError::Truncated)
}

/// Reading gives the same file however the source cuts it into reads: where
/// `buffered` followed by all the chunks decodes, and no read comes back
/// empty, reading the chunks one by one gives what decoding the whole at
/// once gives.
pub proof fn lemma_read_any_chunking(buffered: Seq<u8>, chunks: Seq<Seq<u8>>)
    requires
        spec_file(buffered + concat(chunks)) is Ok,
        chunks.len() > 0,
        forall|i: int| 0 <= i < chunks.len() ==> chunks[i].len() > 0,
    ensures
        spec_read(buffered, chunks) == Ok::<FileView, ReadError>(
            spec_file(buffered + concat(chunks))->Ok_0.1,
        ),
    decreases chunks.len(),
{
    let whole = buffered + concat(chunks);
    let first = buffered + chunks[0];
    let rest = chunks.drop_first();
    assert(first + concat(rest) =~= whole);
    assert(first.is_prefix_of(whole)) by {
        assert(first =~= whole.subrange(0, first.len() as int));
    }
    lemma_file_extends(first, whole);
    if spec_file(first) is Err {
        if rest.len() == 0 {
            assert(first =~= whole);
        } else {
            assert forall|i: int| 0 <= i < rest.len() implies rest[i].len() > 0 by {
                assert(rest[i] == chunks[i + 1]);
            }
            lemma_read_any_chunking(first, rest);
        }
    }
}

/// One chunk laid end to end is that chunk; two are the first followed by
/// the second.
pub proof fn lemma_concat_small(first: Seq<u8>, second: Seq<u8>)
    ensures
        concat(seq![first]) == first,
        concat(seq![first, second]) == first + second,
{
    let empty = Seq::<Seq<u8>>::empty();
    assert(concat(empty) =~= Seq::<u8>::empty());
    assert(seq![first].drop_first() =~= empty);
    assert(concat(seq![first]) =~= first);
    assert(seq![second].drop_first() =~= empty);
    assert(concat(seq![second]) =~= second);
    assert(seq![first, second].drop_first() =~= seq![second]);
    assert(concat(seq![first, second]) =~= first + second);
}

/// Where the first read already holds a whole file, reading stops there
/// with that file.
pub proof fn lemma_read_first_settles(buffered: Seq<u8>, chunks: Seq<Seq<u8>>)
    requires
        chunks.len() > 0,
        chunks[0].len() > 0,
        spec_file(buffered + chunks[0]) is Ok,
    ensures
        spec_read(buffered, chunks) == Ok::<FileView, ReadError>(
            spec_file(buffered + chunks[0])->Ok_0.1,
        ),
{
}

/// Reading a well-formed buffer in one piece gives its file.
pub proof fn lemma_read_whole(b: Seq<u8>)
    requires
        spec_file(b) is Ok,
    ensures
        spec_read(Seq::empty(), seq![b]) == Ok::<FileView, ReadError>(spec_file(b)->Ok_0.1),
{
    let empty = Seq::<u8>::empty();
    assert(empty + b =~= b);
    assert(seq![b][0] == b);
    lemma_file_advances(b);
    lemma_read_first_settles(empty, seq![b]);
}

/// Reading a well-formed buffer in two non-empty pieces gives its file.
pub proof fn lemma_read_two(head: Seq<u8>, tail: Seq<u8>)
    requires
        spec_file(head + tail) is Ok,
        head.len() > 0,
        tail.len() > 0,
    ensures
        spec_read(Seq::empty(), seq![head, tail]) == Ok::<FileView, ReadError>(
            spec_file(head + tail)->Ok_0.1,
        ),
{
    let empty = Seq::<u8>::empty();
    let two = seq![head, tail];
    lemma_concat_small(head, tail);
    assert(empty + (head + tail) =~= head + tail);
    assert(two[0] == head);
    assert(two[1] == tail);
    lemma_read_any_chunking(empty, two);
}

/// Cutting a well-formed buffer in two at any point after its first byte,
/// and reading the two parts one after the other, gives the file that
/// reading the buffer in one piece gives. A cut before the first byte is
/// left out: it makes the first read empty, and an empty read is the end of
/// the source.
pub proof fn lemma_read_split(b: Seq<u8>, k: int)
    requires
        spec_file(b) is Ok,
        0 < k <= b.len(),
    ensures
        spec_read(Seq::empty(), seq![b.take(k), b.skip(k)]) == spec_read(Seq::empty(), seq![b]),
        spec_read(Seq::empty(), seq![b]) == Ok::<FileView, ReadError>(spec_file(b)->Ok_0.1),
{
    let head = b.take(k);
    let tail = b.skip(k);
    lemma_read_whole(b);
    if k == b.len() {
        assert(head =~= b);
        assert(Seq::<u8>::empty() + head =~= b);
        assert(seq![head, tail][0] == head);
        lemma_read_first_settles(Seq::empty(), seq![head, tail]);
    } else {
        assert(head + tail =~= b);
        lemma_read_two(head, tail);
    }
}

} // verus!
