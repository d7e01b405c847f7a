use vstd::prelude::*;
use vstd::slice::{slice_subrange, slice_to_vec};

verus! {

/// Size of the container framing region at the start of every decrypted
/// stream; it is consumed and discarded before any payload byte is written.
pub const HEADER_LEN: usize = 167;

/// How many header bytes are consumed after a chunk of length `len` arrives
/// with `skipped` header bytes already consumed.
pub open spec fn skipped_after(skipped: int, len: int) -> int {
    if skipped + len <= HEADER_LEN {
        skipped + len
    } else {
        HEADER_LEN as int
    }
}

/// The payload a chunk contributes once `skipped` header bytes were already
/// consumed: everything behind the part that still belongs to the header.
pub open spec fn payload_of(chunk: Seq<u8>, skipped: int) -> Seq<u8> {
    if skipped + chunk.len() <= HEADER_LEN {
        Seq::empty()
    } else {
        chunk.skip(HEADER_LEN - skipped)
    }
}

/// The concatenated payload of a whole run of chunks, starting with `skipped`
/// header bytes already consumed.
pub open spec fn decrypt_outputs(chunks: Seq<Seq<u8>>, skipped: int) -> Seq<u8>
    decreases chunks.len(),
{
    if chunks.len() == 0 {
        Seq::empty()
    } else {
        payload_of(chunks.first(), skipped) + decrypt_outputs(
            chunks.drop_first(),
            skipped_after(skipped, chunks.first().len() as int),
        )
    }
}

/// The front boundary of the decrypted stream: consumes and discards the
/// fixed-size header region, then passes every payload byte through
/// unchanged. The decryption itself happens upstream; this stage sees the
/// decrypted bytes chunk by chunk.
pub struct DecryptStage {
    skipped: usize,
}

impl DecryptStage {
    /// How many header bytes were consumed so far.
    pub closed spec fn skipped_spec(&self) -> int {
        self.skipped as int
    }

    pub open spec fn wf(&self) -> bool {
        0 <= self.skipped_spec() <= HEADER_LEN
    }

    pub fn new() -> (r: DecryptStage)
        ensures
            r.wf(),
            r.skipped_spec() == 0,
    {
        DecryptStage { skipped: 0 }
    }

    /// Feeds one decrypted chunk through the stage; the result is what may be
    /// written onward (empty while the header region is being consumed).
    pub fn feed(&mut self, chunk: &Vec<u8>) -> (out: Vec<u8>)
        requires
            old(self).wf(),
        ensures
            final(self).wf(),
            final(self).skipped_spec() == skipped_after(
                old(self).skipped_spec(),
                chunk@.len() as int,
            ),
            out@ == payload_of(chunk@, old(self).skipped_spec()),
    {
        let need = HEADER_LEN - self.skipped;
        if chunk.len() <= need {
            self.skipped = self.skipped + chunk.len();
            let out: Vec<u8> = Vec::new();
            proof {
                assert(out@ =~= payload_of(chunk@, old(self).skipped_spec()));
            }
            out
        } else {
            self.skipped = HEADER_LEN;
            let rest = slice_subrange(chunk.as_slice(), need, chunk.len());
            let out = slice_to_vec(rest);
            proof {
                assert(chunk@.subrange(need as int, chunk@.len() as int) =~= chunk@.skip(
                    need as int,
                ));
            }
            out
        }
    }
}

/// Law: running any sequence of decrypted chunks through the stage
/// reproduces the concatenation of the chunks bit for bit, minus the skipped
/// header region.
pub proof fn lemma_decrypt_stage_reproduces_payload(chunks: Seq<Seq<u8>>, skipped: int)
    requires
        0 <= skipped <= HEADER_LEN,
    ensures
        decrypt_outputs(chunks, skipped) == payload_of(chunks.flatten(), skipped),
    decreases chunks.len(),
{
    if chunks.len() == 0 {
        assert(chunks.flatten() =~= Seq::<u8>::empty());
        assert(payload_of(Seq::<u8>::empty(), skipped) =~= Seq::<u8>::empty());
    } else {
        let c0 = chunks.first();
        let rest = chunks.drop_first();
        let skipped1 = skipped_after(skipped, c0.len() as int);
        lemma_decrypt_stage_reproduces_payload(rest, skipped1);
        let f = rest.flatten();
        assert(chunks.flatten() == c0 + f);
        if skipped + c0.len() <= HEADER_LEN {
            assert(payload_of(c0, skipped) =~= Seq::<u8>::empty());
            if skipped1 + f.len() <= HEADER_LEN {
                assert(payload_of(c0 + f, skipped) =~= Seq::<u8>::empty());
                assert(payload_of(f, skipped1) =~= Seq::<u8>::empty());
            } else {
                assert(payload_of(c0 + f, skipped) =~= (c0 + f).skip(HEADER_LEN - skipped));
                assert((c0 + f).skip(HEADER_LEN - skipped) =~= f.skip(HEADER_LEN - skipped1));
                assert(payload_of(f, skipped1) == f.skip(HEADER_LEN - skipped1));
            }
            assert(Seq::<u8>::empty() + decrypt_outputs(rest, skipped1) =~= decrypt_outputs(
                rest,
                skipped1,
            ));
        } else {
            assert(skipped1 == HEADER_LEN);
            assert(payload_of(c0, skipped) == c0.skip(HEADER_LEN - skipped));
            assert(payload_of(f, skipped1) =~= f);
            assert(payload_of(c0 + f, skipped) =~= c0.skip(HEADER_LEN - skipped) + f);
        }
    }
}

/// A progress event or file directive the stream driver hands back to the
/// caller after an event of the source stream.
pub enum StreamEvent {
    /// A chunk of `len` source bytes was consumed.
    Chunk(usize),
    /// The source reached its genuine end of stream.
    End,
    /// The source failed mid-stream.
    Fail,
}

/// Cumulative source bytes after a run of stream events.
pub open spec fn bytes_after(events: Seq<StreamEvent>) -> int
    decreases events.len(),
{
    if events.len() == 0 {
        0
    } else {
        bytes_after(events.drop_last()) + match events.last() {
            StreamEvent::Chunk(len) => len as int,
            StreamEvent::End => 0,
            StreamEvent::Fail => 0,
        }
    }
}

/// Whether the destination file exists after a run of stream events: it is
/// created when the stream opens and removed the moment the source fails.
pub open spec fn file_exists_after(events: Seq<StreamEvent>) -> bool
    decreases events.len(),
{
    if events.len() == 0 {
        true
    } else {
        match events.last() {
            StreamEvent::Chunk(_) => file_exists_after(events.drop_last()),
            StreamEvent::End => file_exists_after(events.drop_last()),
            StreamEvent::Fail => false,
        }
    }
}

/// Whether the stream finished after a run of stream events.
pub open spec fn finished_after(events: Seq<StreamEvent>) -> bool
    decreases events.len(),
{
    if events.len() == 0 {
        false
    } else {
        match events.last() {
            StreamEvent::Chunk(_) => finished_after(events.drop_last()),
            StreamEvent::End => true,
            StreamEvent::Fail => finished_after(events.drop_last()),
        }
    }
}

/// Law: `bytes_read` reported across consecutive progress events of one job
/// never decreases: the count after any prefix of the run is at most the
/// count after any longer prefix.
pub proof fn lemma_progress_monotonic(events: Seq<StreamEvent>, k: int, l: int)
    requires
        0 <= k <= l <= events.len(),
    ensures
        bytes_after(events.take(k)) <= bytes_after(events.take(l)),
    decreases l - k,
{
    if k < l {
        lemma_progress_monotonic(events, k, l - 1);
        assert(events.take(l).drop_last() =~= events.take(l - 1));
        assert(bytes_after(events.take(l - 1)) <= bytes_after(events.take(l)));
    }
}

/// Law: once the source stream fails, the destination file does not exist,
/// whatever events preceded the failure.
pub proof fn lemma_error_removes_file(events: Seq<StreamEvent>)
    requires
        exists|i: int| 0 <= i < events.len() && events[i] is Fail,
    ensures
        !file_exists_after(events),
    decreases events.len(),
{
    let i = choose|i: int| 0 <= i < events.len() && events[i] is Fail;
    if i == events.len() - 1 {
    } else {
        assert(events.drop_last()[i] is Fail);
        lemma_error_removes_file(events.drop_last());
    }
}

/// Law: only a genuine end-of-stream event finishes the stream; in
/// particular, zero-length chunks never do.
pub proof fn lemma_eof_only_from_end(events: Seq<StreamEvent>)
    ensures
        finished_after(events) <==> exists|i: int| 0 <= i < events.len() && events[i] is End,
    decreases events.len(),
{
    if events.len() > 0 {
        lemma_eof_only_from_end(events.drop_last());
        if events.last() is End {
            assert(events[events.len() - 1] is End);
        } else {
            assert(forall|i: int|
                0 <= i < events.len() - 1 ==> events[i] == #[trigger] events.drop_last()[i]);
            if exists|i: int| 0 <= i < events.len() && events[i] is End {
                let i = choose|i: int| 0 <= i < events.len() && events[i] is End;
                assert(events.drop_last()[i] is End);
            }
        }
    }
}

/// Drives one job's byte stream: counts cumulative source bytes against the
/// declared total, reports progress, and removes the partial destination file
/// the moment the source fails.
pub struct StreamDriver {
    bytes_read: usize,
    total: usize,
    file_exists: bool,
    finished: bool,
    failed: bool,
}

impl StreamDriver {
    pub closed spec fn bytes_read_spec(&self) -> int {
        self.bytes_read as int
    }

    pub closed spec fn total_spec(&self) -> int {
        self.total as int
    }

    /// Whether the destination file exists in this run's model of the sink.
    pub closed spec fn file_exists_spec(&self) -> bool {
        self.file_exists
    }

    pub closed spec fn finished_spec(&self) -> bool {
        self.finished
    }

    pub closed spec fn failed_spec(&self) -> bool {
        self.failed
    }

    /// A failed run never leaves the destination file behind.
    pub open spec fn wf(&self) -> bool {
        self.failed_spec() ==> !self.file_exists_spec()
    }

    /// Cumulative source bytes consumed so far.
    pub fn bytes_read(&self) -> (r: usize)
        ensures
            r == self.bytes_read_spec(),
    {
        self.bytes_read
    }

    /// The declared size of the encrypted source.
    pub fn total(&self) -> (r: usize)
        ensures
            r == self.total_spec(),
    {
        self.total
    }

    /// Whether the destination file exists in this run's model of the sink;
    /// the caller keeps the real file system in step with it.
    pub fn file_exists(&self) -> (r: bool)
        ensures
            r == self.file_exists_spec(),
    {
        self.file_exists
    }

    pub fn finished(&self) -> (r: bool)
        ensures
            r == self.finished_spec(),
    {
        self.finished
    }

    pub fn failed(&self) -> (r: bool)
        ensures
            r == self.failed_spec(),
    {
        self.failed
    }

    /// Starts a run: the destination file is created before the first byte.
    pub fn new(total: usize) -> (r: StreamDriver)
        ensures
            r.wf(),
            r.bytes_read_spec() == 0,
            r.total_spec() == total,
            r.file_exists_spec(),
            !r.finished_spec(),
            !r.failed_spec(),
    {
        StreamDriver { bytes_read: 0, total, file_exists: true, finished: false, failed: false }
    }

    /// A chunk of `len` source bytes was consumed: progress grows by `len`
    /// and is reported, except that a zero-length payload is skipped without
    /// a progress event — it is not end-of-stream.
    pub fn on_chunk(&mut self, len: usize) -> (progress: Option<(usize, usize)>)
        requires
            !old(self).finished_spec(),
            !old(self).failed_spec(),
            old(self).wf(),
            old(self).bytes_read_spec() + len <= usize::MAX,
        ensures
            final(self).wf(),
            final(self).bytes_read_spec() == old(self).bytes_read_spec() + len,
            final(self).bytes_read_spec() >= old(self).bytes_read_spec(),
            final(self).total_spec() == old(self).total_spec(),
            final(self).file_exists_spec() == old(self).file_exists_spec(),
            !final(self).finished_spec(),
            !final(self).failed_spec(),
            len > 0 ==> (progress matches Some(p) && p.0 == final(self).bytes_read_spec() && p.1
                == final(self).total_spec()),
            len == 0 ==> progress is None,
    {
        if len == 0 {
            return None;
        }
        self.bytes_read = self.bytes_read + len;
        Some((self.bytes_read, self.total))
    }

    /// The source reached its genuine end of stream.
    pub fn on_end(&mut self)
        requires
            !old(self).finished_spec(),
            !old(self).failed_spec(),
            old(self).wf(),
        ensures
            final(self).wf(),
            final(self).finished_spec(),
            !final(self).failed_spec(),
            final(self).bytes_read_spec() == old(self).bytes_read_spec(),
            final(self).file_exists_spec() == old(self).file_exists_spec(),
    {
        self.finished = true;
    }

    /// The source failed mid-stream: the partially written destination file
    /// is removed before the error propagates.
    pub fn on_error(&mut self)
        requires
            !old(self).finished_spec(),
            !old(self).failed_spec(),
        ensures
            final(self).wf(),
            final(self).failed_spec(),
            !final(self).finished_spec(),
            !final(self).file_exists_spec(),
            final(self).bytes_read_spec() == old(self).bytes_read_spec(),
    {
        self.file_exists = false;
        self.failed = true;
    }
}

/// Runs a whole download stream: every chunk through the decrypt stage into
/// the output, with one progress report per chunk that contributed payload.
/// What the sink holds afterwards is the source minus the header, and the
/// reported counts never decrease and always name the declared total.
#[verifier::loop_isolation(false)]
pub fn run_download_stream(chunks: &Vec<Vec<u8>>, total: usize) -> (r: (Vec<u8>, Vec<(usize, usize)>))
    ensures
        r.0@ == decrypt_outputs(chunks.deep_view(), 0),
        r.0@ == payload_of(chunks.deep_view().flatten(), 0),
        forall|i: int| 0 <= i < r.1@.len() ==> (#[trigger] r.1@[i]).1 == total,
        forall|i: int, j: int| 0 <= i <= j < r.1@.len() ==> r.1@[i].0 <= r.1@[j].0,
        forall|i: int| 0 <= i < r.1@.len() ==> (#[trigger] r.1@[i]).0 <= r.0@.len(),
{
    let ghost model = chunks.deep_view();
    let mut stage = DecryptStage::new();
    let mut driver = StreamDriver::new(total);
    let mut out: Vec<u8> = Vec::new();
    let mut progress: Vec<(usize, usize)> = Vec::new();
    let n = chunks.len();
    let mut i: usize = 0;
    proof {
        assert(out@ + decrypt_outputs(model, 0) =~= decrypt_outputs(model, 0));
        assert(model.skip(0) =~= model);
    }
    while i < n
        invariant
            n == chunks@.len(),
            i <= n,
            stage.wf(),
            !driver.finished_spec(),
            !driver.failed_spec(),
            driver.total_spec() == total,
            driver.bytes_read_spec() == out@.len(),
            decrypt_outputs(model, 0) == out@ + decrypt_outputs(
                model.skip(i as int),
                stage.skipped_spec(),
            ),
            forall|k: int| 0 <= k < progress@.len() ==> (#[trigger] progress@[k]).1 == total,
            forall|k: int, l: int|
                0 <= k <= l < progress@.len() ==> progress@[k].0 <= progress@[l].0,
            forall|k: int| 0 <= k < progress@.len() ==> (#[trigger] progress@[k]).0 <= out@.len(),
        decreases n - i,
    {
        let ghost out_old = out@;
        let ghost rest = model.skip(i as int);
        let ghost sk_old = stage.skipped_spec();
        proof {
            assert(rest.first() == model[i as int]);
            assert(chunks@[i as int]@ == model[i as int]);
            assert(rest.drop_first() =~= model.skip(i + 1));
        }
        let mut piece = stage.feed(&chunks[i]);
        let piece_len = piece.len();
        out.append(&mut piece);
        let written = out.len();
        proof {
            assert(driver.bytes_read_spec() + piece_len == written);
        }
        if let Some(report) = driver.on_chunk(piece_len) {
            progress.push(report);
        }
        i += 1;
        proof {
            let p = payload_of(rest.first(), sk_old);
            let tail = decrypt_outputs(model.skip(i as int), stage.skipped_spec());
            assert(decrypt_outputs(rest, sk_old) == p + tail);
            assert((out_old + p) + tail =~= out_old + (p + tail));
        }
    }
    proof {
        assert(model.skip(n as int) =~= Seq::<Seq<u8>>::empty());
        assert(out@ + Seq::<u8>::empty() =~= out@);
        lemma_decrypt_stage_reproduces_payload(model, 0);
    }
    (out, progress)
}

} // verus!
