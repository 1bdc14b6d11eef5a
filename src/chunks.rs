use vstd::prelude::*;

use crate::histogram::ByteHistogram;

verus! {

/// One scored chunk: where it starts in the stream, and its histogram.
pub struct ChunkRecord {
    pub start: u64,
    pub histogram: ByteHistogram,
}

/// Cuts a byte stream into chunks of a fixed size and scores each full one.
/// A read that comes back short, at the end of the stream or on an error, ends
/// the stream: its bytes are not scored, and nothing after it is.
pub struct ChunkReader {
    chunk_size: usize,
    chunks: u64,
    done: bool,
}

impl ChunkReader {
    /// The number of bytes in each chunk.
    pub closed spec fn size(&self) -> nat {
        self.chunk_size as nat
    }

    /// The number of full chunks scored so far.
    pub closed spec fn scored(&self) -> nat {
        self.chunks as nat
    }

    /// Whether the stream has ended.
    pub closed spec fn ended(&self) -> bool {
        self.done
    }

    /// The chunk size is positive and the next start offset fits in a `u64`.
    pub open spec fn wf(&self) -> bool {
        &&& self.size() >= 1
        &&& self.scored() * self.size() <= u64::MAX
    }

    /// A reader at the start of a stream, for chunks of `chunk_size` bytes.
    pub fn new(chunk_size: usize) -> (r: ChunkReader)
        requires
            chunk_size >= 1,
        ensures
            r.wf(),
            r.size() == chunk_size,
            r.scored() == 0,
            !r.ended(),
    {
        ChunkReader { chunk_size, chunks: 0, done: false }
    }

    /// The number of bytes in each chunk.
    pub fn chunk_size(&self) -> (n: usize)
        ensures
            n == self.size(),
    {
        self.chunk_size
    }

    /// The number of full chunks scored so far.
    pub fn chunks_read(&self) -> (n: u64)
        ensures
            n == self.scored(),
    {
        self.chunks
    }

    /// Whether the stream has ended.
    pub fn is_done(&self) -> (b: bool)
        ensures
            b == self.ended(),
    {
        self.done
    }

    /// The offset in the stream at which the next chunk starts.
    pub fn next_start(&self) -> (n: u64)
        requires
            self.wf(),
        ensures
            n == self.scored() * self.size(),
    {
        self.chunks * (self.chunk_size as u64)
    }

    /// Takes the bytes of one read. Where the stream goes on and they fill a
    /// whole chunk, the chunk is scored: the result is its start offset and its
    /// histogram. Otherwise the stream ends there and nothing is scored. The
    /// stream ends too where the start of the chunk after this one would not
    /// fit in a `u64`.
    pub fn feed(&mut self, bytes: &[u8]) -> (rec: Option<ChunkRecord>)
        requires
            old(self).wf(),
        ensures
            final(self).wf(),
            final(self).size() == old(self).size(),
            ({
                let full = !old(self).ended() && bytes@.len() == old(self).size() && (old(
                    self,
                ).scored() + 1) * old(self).size() <= u64::MAX;
                &&& full ==> {
                    &&& rec is Some
                    &&& rec->0.start == old(self).scored() * old(self).size()
                    &&& rec->0.histogram.holds(bytes@)
                    &&& final(self).scored() == old(self).scored() + 1
                    &&& !final(self).ended()
                }
                &&& !full ==> {
                    &&& rec is None
                    &&& final(self).scored() == old(self).scored()
                    &&& final(self).ended()
                }
            }),
    {
        let size = self.chunk_size as u64;
        let limit = u64::MAX / size;
        if self.done || bytes.len() != self.chunk_size || limit < 1 || self.chunks > limit - 1 {
            proof {
                if !self.done && bytes@.len() == self.size() {
                    lemma_fits(self.chunks as nat, size as nat);
                }
            }
            self.done = true;
            return None;
        }
        proof {
            lemma_fits(self.chunks as nat, size as nat);
        }
        assert(self.chunks * size <= (self.chunks + 1) * size) by (nonlinear_arith);
        let start = self.chunks * size;
        let mut histogram = ByteHistogram::new();
        histogram.write(bytes);
        self.chunks = self.chunks + 1;
        Some(ChunkRecord { start, histogram })
    }
}

/// Whether `(k + 1) * size` fits in a `u64`, told by a division.
proof fn lemma_fits(k: nat, size: nat)
    requires
        size >= 1,
    ensures
        (k + 1) * size <= u64::MAX <==> k + 1 <= (u64::MAX as nat) / size,
{
    let m = u64::MAX as nat;
    assert(((k + 1) * size <= m) <==> (k + 1 <= m / size)) by (nonlinear_arith)
        requires
            size >= 1,
    ;
}

/// The bytes of the `i`-th chunk of `data`, chunks being `n` bytes long.
pub open spec fn chunk(data: Seq<u8>, n: nat, i: nat) -> Seq<u8> {
    data.subrange((i * n) as int, ((i + 1) * n) as int)
}

/// `recs` are the scored chunks of `data`, `n` bytes each: one record per full
/// chunk, in order, with its start offset and its histogram.
pub open spec fn records_of(data: Seq<u8>, n: nat, recs: Seq<ChunkRecord>) -> bool {
    &&& recs.len() == data.len() / n
    &&& forall|i: int|
        0 <= i < recs.len() ==> {
            &&& #[trigger] recs[i].start == i * n
            &&& recs[i].histogram.holds(chunk(data, n, i as nat))
        }
}

/// Scoring is deterministic: two record lists for the same bytes and chunk size
/// agree in length, in every start offset, in every count and in every total.
pub proof fn lemma_records_deterministic(
    data: Seq<u8>,
    n: nat,
    a: Seq<ChunkRecord>,
    b: Seq<ChunkRecord>,
)
    requires
        n >= 1,
        records_of(data, n, a),
        records_of(data, n, b),
    ensures
        a.len() == b.len(),
        forall|i: int|
            0 <= i < a.len() ==> {
                &&& #[trigger] a[i].start == b[i].start
                &&& a[i].histogram.total_count() == b[i].histogram.total_count()
                &&& forall|v: u8|
                    #[trigger] a[i].histogram.count_of(v) == b[i].histogram.count_of(v)
            },
{
    assert forall|i: int| 0 <= i < a.len() implies {
        &&& #[trigger] a[i].start == b[i].start
        &&& a[i].histogram.total_count() == b[i].histogram.total_count()
        &&& forall|v: u8| #[trigger] a[i].histogram.count_of(v) == b[i].histogram.count_of(v)
    } by {
        assert(a[i].start == i * n);
        assert(b[i].start == i * n);
    }
}

/// Scores the full chunks of `data`, `chunk_size` bytes each, in order; the
/// bytes after the last full chunk are not scored.
pub fn chunk_records(data: &[u8], chunk_size: usize) -> (recs: Vec<ChunkRecord>)
    requires
        chunk_size >= 1,
    ensures
        records_of(data@, chunk_size as nat, recs@),
{
    let mut reader = ChunkReader::new(chunk_size);
    let mut recs: Vec<ChunkRecord> = Vec::new();
    let mut pos: usize = 0;
    while pos <= data.len() && data.len() - pos >= chunk_size
        invariant
            reader.wf(),
            !reader.ended(),
            reader.size() == chunk_size,
            recs@.len() == reader.scored(),
            pos == reader.scored() * chunk_size,
            pos <= data@.len(),
            forall|i: int|
                0 <= i < recs@.len() ==> {
                    &&& #[trigger] recs@[i].start == i * chunk_size
                    &&& recs@[i].histogram.holds(chunk(data@, chunk_size as nat, i as nat))
                },
        decreases data@.len() - pos,
    {
        let next = pos + chunk_size;
        let piece = &data[pos..next];
        let ghost k = reader.scored();
        assert(piece@ =~= chunk(data@, chunk_size as nat, k)) by {
            assert((k + 1) * chunk_size == k * chunk_size + chunk_size) by (nonlinear_arith);
        }
        assert((k + 1) * chunk_size == k * chunk_size + chunk_size) by (nonlinear_arith);
        let rec = reader.feed(piece);
        match rec {
            Some(r) => {
                recs.push(r);
            },
            None => {},
        }
        pos = next;
    }
    assert(recs@.len() == data@.len() / (chunk_size as nat)) by (nonlinear_arith)
        requires
            recs@.len() * chunk_size == pos,
            pos <= data@.len(),
            data@.len() - pos < chunk_size,
            chunk_size >= 1,
    ;
    recs
}

} // verus!
