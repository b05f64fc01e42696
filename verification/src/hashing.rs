use vstd::prelude::*;
use crate::text::{hex_lower, is_lower_hex_char, lemma_hex_lower_shape, to_hex_lower};

verus! {

/// The size of the buffer that a file is read into while it is hashed.
pub const READ_BUFFER_LEN: usize = 65536;

/// The BLAKE3 digest of `input`: what `blake3::Hasher::finalize` gives for
/// a hasher fed exactly `input`, which blake3's documentation gives as the
/// same as `blake3::hash(input)`.
pub uninterp spec fn blake3_digest(input: Seq<u8>) -> Seq<u8>;

/// BLAKE3's incremental hasher.
#[verifier::external_type_specification]
#[verifier::external_body]
pub struct ExHasher(blake3::Hasher);

/// The bytes that a hasher has been fed, in order.
pub uninterp spec fn hasher_input(hasher: blake3::Hasher) -> Seq<u8>;

/// `blake3::Hasher::new`: a hasher that has been fed nothing.
#[verifier::external_body]
fn new_hasher() -> (res: blake3::Hasher)
    ensures
        hasher_input(res) == Seq::<u8>::empty(),
{
    blake3::Hasher::new()
}

/// `blake3::Hasher::update`: the hasher has been fed `input` after what it
/// was fed before.
#[verifier::external_body]
fn hasher_update(hasher: &mut blake3::Hasher, input: &[u8])
    ensures
        hasher_input(*final(hasher)) == hasher_input(*old(hasher)) + input@,
{
    hasher.update(input);
}

/// `blake3::Hasher::finalize`: the 32 bytes (`blake3::OUT_LEN`) of the
/// digest of everything fed, which are only named.
#[verifier::external_body]
fn hasher_digest(hasher: &blake3::Hasher) -> (res: Vec<u8>)
    ensures
        res@ == blake3_digest(hasher_input(*hasher)),
        res@.len() == 32,
{
    hasher.finalize().as_bytes().to_vec()
}

/// Whether a read can hand over `chunk`: at least one byte, and no more
/// than the buffer holds.
pub open spec fn valid_chunk(chunk: Seq<u8>) -> bool {
    1 <= chunk.len() <= READ_BUFFER_LEN
}

/// The read buffer before any read: all zeros.
pub open spec fn zero_buffer() -> Seq<u8> {
    Seq::new(READ_BUFFER_LEN as nat, |i: int| 0u8)
}

/// The read buffer after the reads that handed over `chunks`: each read
/// overwrites the front of the buffer and leaves the rest as it was.
pub open spec fn read_buffer(chunks: Seq<Seq<u8>>) -> Seq<u8>
    decreases chunks.len(),
{
    if chunks.len() == 0 {
        zero_buffer()
    } else {
        let prev = read_buffer(chunks.drop_last());
        let c = chunks.last();
        c + prev.subrange(c.len() as int, prev.len() as int)
    }
}

/// What goes into the digest: after each read, the whole buffer.
pub open spec fn hashed_input(chunks: Seq<Seq<u8>>) -> Seq<u8>
    decreases chunks.len(),
{
    if chunks.len() == 0 {
        Seq::empty()
    } else {
        hashed_input(chunks.drop_last()) + read_buffer(chunks)
    }
}

/// The text of a file's hash: the lowercase hexadecimal BLAKE3 digest of
/// the hashed input.
pub open spec fn file_hash_text(chunks: Seq<Seq<u8>>) -> Seq<char> {
    hex_lower(blake3_digest(hashed_input(chunks)))
}

/// The buffer keeps its size whatever valid reads went into it.
pub proof fn lemma_read_buffer_len(chunks: Seq<Seq<u8>>)
    requires
        forall|i: int| 0 <= i < chunks.len() ==> valid_chunk(#[trigger] chunks[i]),
    ensures
        read_buffer(chunks).len() == READ_BUFFER_LEN,
    decreases chunks.len(),
{
    if chunks.len() > 0 {
        lemma_read_buffer_len(chunks.drop_last());
        assert(valid_chunk(chunks[chunks.len() - 1]));
    }
}

/// Every read puts a whole buffer into the digest, however few bytes it
/// handed over: the hashed input is one buffer long per read.
pub proof fn lemma_hashed_input_len(chunks: Seq<Seq<u8>>)
    requires
        forall|i: int| 0 <= i < chunks.len() ==> valid_chunk(#[trigger] chunks[i]),
    ensures
        hashed_input(chunks).len() == READ_BUFFER_LEN * chunks.len(),
    decreases chunks.len(),
{
    if chunks.len() > 0 {
        lemma_hashed_input_len(chunks.drop_last());
        lemma_read_buffer_len(chunks);
    }
}

/// One byte of the read buffer after the reads `chunks`, by the read that
/// last wrote it: if read `m` covers position `j` and no later read does,
/// the byte is read `m`'s byte `j`.
proof fn lemma_read_buffer_byte_last_writer(chunks: Seq<Seq<u8>>, j: int, m: int)
    requires
        forall|i: int| 0 <= i < chunks.len() ==> valid_chunk(#[trigger] chunks[i]),
        0 <= m < chunks.len(),
        0 <= j < chunks[m].len(),
        forall|m2: int| m < m2 < chunks.len() ==> (#[trigger] chunks[m2]).len() <= j,
    ensures
        read_buffer(chunks)[j] == chunks[m][j],
    decreases chunks.len(),
{
    let pre = chunks.drop_last();
    let c = chunks.last();
    lemma_read_buffer_len(pre);
    if m < chunks.len() - 1 {
        assert(chunks[chunks.len() - 1].len() <= j);
        assert forall|i: int| 0 <= i < pre.len() implies valid_chunk(#[trigger] pre[i]) by {
            assert(pre[i] == chunks[i]);
        }
        assert forall|m2: int| m < m2 < pre.len() implies (#[trigger] pre[m2]).len() <= j by {
            assert(pre[m2] == chunks[m2]);
        }
        lemma_read_buffer_byte_last_writer(pre, j, m);
        assert(pre[m] == chunks[m]);
    }
}

/// One byte of the read buffer after reads none of which covered its
/// position: it is still zero.
proof fn lemma_read_buffer_byte_unwritten(chunks: Seq<Seq<u8>>, j: int)
    requires
        forall|i: int| 0 <= i < chunks.len() ==> valid_chunk(#[trigger] chunks[i]),
        0 <= j < READ_BUFFER_LEN,
        forall|m: int| 0 <= m < chunks.len() ==> (#[trigger] chunks[m]).len() <= j,
    ensures
        read_buffer(chunks)[j] == 0,
    decreases chunks.len(),
{
    if chunks.len() > 0 {
        let pre = chunks.drop_last();
        lemma_read_buffer_len(pre);
        assert(chunks[chunks.len() - 1].len() <= j);
        assert forall|i: int| 0 <= i < pre.len() implies valid_chunk(#[trigger] pre[i]) by {
            assert(pre[i] == chunks[i]);
        }
        assert forall|m: int| 0 <= m < pre.len() implies (#[trigger] pre[m]).len() <= j by {
            assert(pre[m] == chunks[m]);
        }
        lemma_read_buffer_byte_unwritten(pre, j);
    }
}

/// What a file's hash is made of, read by read: the lowercase hex BLAKE3
/// digest of one 64 KiB block per read, where byte `j` of the block of read
/// `k` is byte `j` of the last read up to `k` that reached position `j`
/// (whatever the sizes of the reads, a full read included), and zero where
/// no read up to `k` reached it. Reads are never hashed alone and never
/// dropped: each read's block keeps what earlier, longer reads left behind.
pub proof fn lemma_file_hash_covers_every_read(chunks: Seq<Seq<u8>>)
    requires
        forall|i: int| 0 <= i < chunks.len() ==> valid_chunk(#[trigger] chunks[i]),
    ensures
        file_hash_text(chunks) == hex_lower(blake3_digest(hashed_input(chunks))),
        hashed_input(chunks).len() == READ_BUFFER_LEN * chunks.len(),
        forall|k: int, j: int, m: int|
            0 <= m <= k < chunks.len() && 0 <= j < (#[trigger] chunks[m]).len() && (forall|m2: int|
                m < m2 <= k ==> (#[trigger] chunks[m2]).len() <= j) ==> #[trigger] hashed_input(chunks)[k
                * READ_BUFFER_LEN + j] == chunks[m][j],
        forall|k: int, j: int|
            0 <= k < chunks.len() && 0 <= j < READ_BUFFER_LEN && (forall|m: int|
                0 <= m <= k ==> (#[trigger] chunks[m]).len() <= j) ==> #[trigger] hashed_input(chunks)[k
                * READ_BUFFER_LEN + j] == 0,
    decreases chunks.len(),
{
    lemma_hashed_input_len(chunks);
    if chunks.len() > 0 {
        let n = chunks.len() as int;
        let pre = chunks.drop_last();
        assert forall|i: int| 0 <= i < pre.len() implies valid_chunk(#[trigger] pre[i]) by {
            assert(pre[i] == chunks[i]);
        }
        lemma_file_hash_covers_every_read(pre);
        lemma_hashed_input_len(pre);
        lemma_read_buffer_len(chunks);
        let x = hashed_input(chunks);
        assert(x == hashed_input(pre) + read_buffer(chunks));
        assert forall|k: int, j: int, m: int|
            0 <= m <= k < chunks.len() && 0 <= j < (#[trigger] chunks[m]).len() && (forall|m2: int|
                m < m2 <= k ==> (#[trigger] chunks[m2]).len() <= j) implies #[trigger] x[k * READ_BUFFER_LEN
            + j] == chunks[m][j] by {
            assert(j < READ_BUFFER_LEN);
            if k < n - 1 {
                assert(pre[m] == chunks[m]);
                assert forall|m2: int| m < m2 <= k implies (#[trigger] pre[m2]).len() <= j by {
                    assert(pre[m2] == chunks[m2]);
                    assert(chunks[m2].len() <= j);
                }
                assert(k * READ_BUFFER_LEN + j < (n - 1) * READ_BUFFER_LEN);
                assert(x[k * READ_BUFFER_LEN + j] == hashed_input(pre)[k * READ_BUFFER_LEN + j]);
            } else {
                assert forall|m2: int| m < m2 < chunks.len() implies (#[trigger] chunks[m2]).len() <= j by {
                    assert(chunks[m2].len() <= j);
                }
                lemma_read_buffer_byte_last_writer(chunks, j, m);
                assert(x[k * READ_BUFFER_LEN + j] == read_buffer(chunks)[j]);
            }
        }
        assert forall|k: int, j: int|
            0 <= k < chunks.len() && 0 <= j < READ_BUFFER_LEN && (forall|m: int|
                0 <= m <= k ==> (#[trigger] chunks[m]).len() <= j) implies #[trigger] x[k * READ_BUFFER_LEN
            + j] == 0 by {
            if k < n - 1 {
                assert forall|m: int| 0 <= m <= k implies (#[trigger] pre[m]).len() <= j by {
                    assert(pre[m] == chunks[m]);
                    assert(chunks[m].len() <= j);
                }
                assert(k * READ_BUFFER_LEN + j < (n - 1) * READ_BUFFER_LEN);
                assert(x[k * READ_BUFFER_LEN + j] == hashed_input(pre)[k * READ_BUFFER_LEN + j]);
            } else {
                assert forall|m: int| 0 <= m < chunks.len() implies (#[trigger] chunks[m]).len() <= j by {
                    assert(chunks[m].len() <= j);
                }
                lemma_read_buffer_byte_unwritten(chunks, j);
                assert(x[k * READ_BUFFER_LEN + j] == read_buffer(chunks)[j]);
            }
        }
    }
}

/// The hash of a file that is being read: the buffer the reads go into,
/// and the BLAKE3 hasher that each read's buffer is fed to.
pub struct FileHasher {
    buffer: Vec<u8>,
    hasher: blake3::Hasher,
    chunks: Ghost<Seq<Seq<u8>>>,
}

impl FileHasher {
    /// The reads that have been fed, in order.
    pub closed spec fn chunks(&self) -> Seq<Seq<u8>> {
        self.chunks@
    }

    /// The buffer and the hasher's input agree with the reads fed so far.
    pub closed spec fn wf(&self) -> bool {
        &&& forall|i: int| 0 <= i < self.chunks@.len() ==> valid_chunk(#[trigger] self.chunks@[i])
        &&& self.buffer@ == read_buffer(self.chunks@)
        &&& hasher_input(self.hasher) == hashed_input(self.chunks@)
    }

    /// A hasher that has read nothing.
    pub fn new() -> (res: Self)
        ensures
            res.wf(),
            res.chunks() == Seq::<Seq<u8>>::empty(),
    {
        let buffer = vec![0u8; READ_BUFFER_LEN];
        assert(buffer@ == zero_buffer());
        FileHasher { buffer, hasher: new_hasher(), chunks: Ghost(Seq::empty()) }
    }

    /// Feeds one read: the chunk overwrites the front of the buffer, then
    /// the whole buffer is fed to the hasher.
    pub fn feed(&mut self, chunk: &[u8])
        requires
            old(self).wf(),
            valid_chunk(chunk@),
        ensures
            final(self).wf(),
            final(self).chunks() == old(self).chunks().push(chunk@),
    {
        let ghost prev = self.buffer@;
        let ghost new_chunks = self.chunks@.push(chunk@);
        proof {
            lemma_read_buffer_len(self.chunks@);
        }
        let n = chunk.len();
        let mut i: usize = 0;
        while i < n
            invariant
                n == chunk@.len(),
                n <= READ_BUFFER_LEN,
                prev.len() == READ_BUFFER_LEN,
                prev == read_buffer(self.chunks@),
                self.chunks@ == old(self).chunks@,
                hasher_input(self.hasher) == hasher_input(old(self).hasher),
                new_chunks == self.chunks@.push(chunk@),
                i <= n,
                self.buffer@.len() == READ_BUFFER_LEN,
                forall|j: int| 0 <= j < i ==> self.buffer@[j] == chunk@[j],
                forall|j: int| i <= j < READ_BUFFER_LEN ==> self.buffer@[j] == prev[j],
            decreases n - i,
        {
            self.buffer.set(i, chunk[i]);
            i = i + 1;
        }
        assert(new_chunks.drop_last() =~= self.chunks@);
        assert(self.buffer@ =~= read_buffer(new_chunks));
        hasher_update(&mut self.hasher, self.buffer.as_slice());
        self.chunks = Ghost(new_chunks);
        assert forall|j: int| 0 <= j < new_chunks.len() implies valid_chunk(#[trigger] new_chunks[j]) by {
            if j < new_chunks.len() - 1 {
                assert(new_chunks[j] == old(self).chunks@[j]);
            }
        }
    }

    /// The text of the hash of everything read: lowercase hexadecimal.
    pub fn finish(&self) -> (res: String)
        requires
            self.wf(),
        ensures
            res@ == file_hash_text(self.chunks()),
            res@.len() == 64,
            forall|i: int| 0 <= i < res@.len() ==> is_lower_hex_char(#[trigger] res@[i]),
    {
        let digest = hasher_digest(&self.hasher);
        proof {
            lemma_hex_lower_shape(digest@);
        }
        to_hex_lower(digest.as_slice())
    }
}

} // verus!
