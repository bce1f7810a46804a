//! Checking an uploaded, zstd-compressed NAR while it streams in: the file
//! must fit the cache quota, must decompress, and the decompressed NAR must
//! have the hash and size that the client declared.
use vstd::prelude::*;
use crate::digest;
use crate::nixbase32;
use crate::text;

verus! {

/// The stream decoder of the `zstd` crate.
#[verifier::external_type_specification]
#[verifier::external_body]
pub struct ExZstdDecoder<'a>(zstd::stream::raw::Decoder<'a>);

/// The size of the buffer that decompressed output passes through.
pub const OUTPUT_CHUNK: usize = 32768;

/// What zstd's streaming decoder (default parameters, one frame after
/// another) yields from `data` once it has read all of it and handed out
/// all that it can: `None` when it finds that `data` is not the start of
/// a zstd stream. A truncated stream yields what its complete blocks hold.
pub uninterp spec fn zstd_output(data: Seq<u8>) -> Option<Seq<u8>>;

/// The bytes a decoder has read since it was made.
pub uninterp spec fn zstd_consumed(d: zstd::stream::raw::Decoder<'static>) -> Seq<u8>;

/// The bytes a decoder has written out since it was made.
pub uninterp spec fn zstd_emitted(d: zstd::stream::raw::Decoder<'static>) -> Seq<u8>;

/// Whether a decoder's last step ended a frame and handed out all of it.
pub uninterp spec fn zstd_frame_end(d: zstd::stream::raw::Decoder<'static>) -> bool;

/// Whether the decoder's last operation reported an error.
pub uninterp spec fn zstd_failed(d: zstd::stream::raw::Decoder<'static>) -> bool;

/// The bytes a decoder had been given when its last operation ended: those
/// it had read before, then the input of that operation.
pub uninterp spec fn zstd_offered(d: zstd::stream::raw::Decoder<'static>) -> Seq<u8>;

/// Whether the decoder's last step was offered input and succeeded, but
/// read none of it and wrote nothing.
pub uninterp spec fn zstd_stalled(d: zstd::stream::raw::Decoder<'static>) -> bool;

/// `p` is a prefix of `s`.
pub open spec fn is_prefix(p: Seq<u8>, s: Seq<u8>) -> bool {
    p.len() <= s.len() && s.subrange(0, p.len() as int) == p
}

/// What a decoder wrote out for `consumed` is never taken back: every
/// continuation of `consumed` that zstd accepts decompresses to something
/// that starts with `emitted`.
pub open spec fn emitted_is_final(emitted: Seq<u8>, consumed: Seq<u8>) -> bool {
    forall|rest: Seq<u8>| #[trigger] zstd_output(consumed + rest) matches Some(o) ==> is_prefix(emitted, o)
}

/// `zstd::stream::raw::Decoder::new`: a fresh decoder, or the error text
/// when zstd cannot allocate one. A fresh decoder has read and written
/// nothing and is not at the end of a frame.
#[verifier::external_body]
fn zstd_decoder_new() -> (r: Result<zstd::stream::raw::Decoder<'static>, String>)
    ensures
        r matches Ok(d) ==> {
            &&& zstd_consumed(d) == Seq::<u8>::empty()
            &&& zstd_emitted(d) == Seq::<u8>::empty()
            &&& !zstd_frame_end(d)
        },
{
    match zstd::stream::raw::Decoder::new() {
        Ok(d) => Ok(d),
        Err(e) => Err(e.to_string()),
    }
}

/// `Operation::run_on_buffers` on a zstd decoder (`ZSTD_decompressStream`):
/// one decompression step, taken only where the decoder is not at the end
/// of a frame or is given no input. On success it gives the hint (0 when a
/// frame was completed and handed out in full), how many input bytes it
/// read and how many bytes it wrote at the start of `output`. Claimed:
/// the decoder has read `input[0..read]` and written `output[0..written]`;
/// what it has written is final (see `emitted_is_final`); and when it read
/// all input and left room in `output`, it has handed out all it can, so
/// what it wrote is `zstd_output` of what it read. Of an error only that
/// the decoder reported one, after being given what it had read before and
/// `input`, is claimed: it may also come from the machine (memory).
#[verifier::external_body]
fn zstd_run(
    dec: &mut zstd::stream::raw::Decoder<'static>,
    input: &[u8],
    output: &mut [u8],
) -> (r: Result<(usize, usize, usize), String>)
    requires
        !zstd_frame_end(*old(dec)) || input@.len() == 0,
    ensures
        final(output)@.len() == old(output)@.len(),
        r is Err ==> zstd_failed(*final(dec)) && zstd_offered(*final(dec)) == zstd_consumed(*old(dec)) + input@,
        r matches Ok((hint, read, written)) ==> {
            &&& !zstd_failed(*final(dec))
            &&& zstd_stalled(*final(dec)) == (input@.len() > 0 && read == 0 && written == 0)
            &&& read <= input@.len()
            &&& written <= old(output)@.len()
            &&& zstd_consumed(*final(dec)) == zstd_consumed(*old(dec)) + input@.subrange(0, read as int)
            &&& zstd_emitted(*final(dec)) == zstd_emitted(*old(dec)) + final(output)@.subrange(0, written as int)
            &&& emitted_is_final(zstd_emitted(*final(dec)), zstd_consumed(*final(dec)))
            &&& zstd_frame_end(*final(dec)) == (hint == 0)
            &&& (read == input@.len() && written < old(output)@.len()
                ==> zstd_output(zstd_consumed(*final(dec))) == Some(zstd_emitted(*final(dec))))
        },
{
    match zstd::stream::raw::Operation::run_on_buffers(dec, input, output) {
        Ok(s) => Ok((s.remaining, s.bytes_read, s.bytes_written)),
        Err(e) => Err(e.to_string()),
    }
}

/// `Operation::reinit` on a zstd decoder: at the end of a frame, prepares
/// it for the next one. Claimed: what it has read and written so far is
/// unchanged, and it is no longer at the end of a frame; on an error, only
/// that the decoder reported one, given no more than it had read.
#[verifier::external_body]
fn zstd_reinit(dec: &mut zstd::stream::raw::Decoder<'static>) -> (r: Result<(), String>)
    requires
        zstd_frame_end(*old(dec)),
    ensures
        r is Err ==> zstd_failed(*final(dec)) && zstd_offered(*final(dec)) == zstd_consumed(*old(dec)),
        r is Ok ==> {
            &&& zstd_consumed(*final(dec)) == zstd_consumed(*old(dec))
            &&& zstd_emitted(*final(dec)) == zstd_emitted(*old(dec))
            &&& !zstd_frame_end(*final(dec))
        },
{
    match zstd::stream::raw::Operation::reinit(dec) {
        Ok(()) => Ok(()),
        Err(e) => Err(e.to_string()),
    }
}

/// Hashes a decompressed NAR while counting its bytes, and refuses bytes
/// beyond the size that the client declared.
pub struct NarHasher {
    hasher: sha2::Sha256,
    size: u64,
    max_size: u64,
}

/// The text of the error that stops a NAR longer than declared.
pub open spec fn oversize_text() -> Seq<char> {
    "Decompressed NAR exceeds declared size"@
}

impl NarHasher {
    /// The bytes hashed so far.
    pub closed spec fn hashed(&self) -> Seq<u8> {
        digest::sha256_absorbed(self.hasher)
    }

    /// The number of bytes offered so far (capped at `u64::MAX`).
    pub closed spec fn size(&self) -> u64 {
        self.size
    }

    /// The size that the client declared.
    pub closed spec fn max_size(&self) -> u64 {
        self.max_size
    }

    /// A hasher for a NAR declared to have `max_size` bytes.
    pub fn new(max_size: u64) -> (r: Self)
        ensures
            r.hashed() == Seq::<u8>::empty(),
            r.size() == 0,
            r.max_size() == max_size,
    {
        NarHasher { hasher: digest::sha256_new(), size: 0, max_size }
    }

    /// Takes the next decompressed bytes: they count towards the size, and
    /// are hashed unless the size now exceeds the declared one, which is an
    /// error.
    pub fn write(&mut self, buf: &[u8]) -> (r: Result<usize, String>)
        ensures
            final(self).max_size() == old(self).max_size(),
            final(self).size() == (if old(self).size() + buf@.len() > u64::MAX { u64::MAX as int } else { old(self).size() + buf@.len() }),
            match r {
                Ok(n) => {
                    &&& n == buf@.len()
                    &&& old(self).size() + buf@.len() <= old(self).max_size()
                    &&& final(self).hashed() == old(self).hashed() + buf@
                },
                Err(e) => {
                    &&& old(self).size() + buf@.len() > old(self).max_size()
                    &&& final(self).hashed() == old(self).hashed()
                    &&& e@ == oversize_text()
                },
            },
    {
        let total = self.size.checked_add(buf.len() as u64);
        self.size = self.size.saturating_add(buf.len() as u64);
        if total.is_none() || self.size > self.max_size {
            return Err(String::from_str("Decompressed NAR exceeds declared size"));
        }
        digest::sha256_update(&mut self.hasher, buf);
        Ok(buf.len())
    }

    /// The SHA-256 digest of the bytes hashed, and the size counted.
    pub fn into_digest(self) -> (r: (Vec<u8>, u64))
        ensures
            r.0@ == digest::sha256(self.hashed()),
            r.0@.len() == 32,
            r.1 == self.size(),
    {
        let size = self.size;
        (digest::sha256_finalize(self.hasher), size)
    }
}

/// Why an upload is refused once it has been received.
#[derive(Debug)]
pub enum StoreError {
    /// The compressed file is larger than the cache quota.
    OverQuota,
    /// The file does not decompress, or decompresses to more than declared.
    Decompress(String),
    /// The decompressed NAR has another hash or size than declared.
    Mismatch,
}

/// The error text of a refused upload.
pub open spec fn store_error_text(e: StoreError) -> Seq<char> {
    match e {
        StoreError::OverQuota => "File size exceeds cache quota"@,
        StoreError::Decompress(m) => "Failed to decompress NAR: "@ + m@,
        StoreError::Mismatch => "NAR hash or size mismatch"@,
    }
}

impl StoreError {
    /// The message that the refusal is reported with.
    pub fn message(&self) -> (r: String)
        ensures
            r@ == store_error_text(*self),
    {
        match self {
            StoreError::OverQuota => String::from_str("File size exceeds cache quota"),
            StoreError::Decompress(m) => {
                let mut r = String::from_str("Failed to decompress NAR: ");
                text::append_str(&mut r, m.as_str());
                r
            },
            StoreError::Mismatch => String::from_str("NAR hash or size mismatch"),
        }
    }
}

/// Where a decompression error came from.
pub enum DecodeFailure {
    /// zstd itself reported an error.
    Zstd,
    /// The decompressed NAR grew beyond the declared size.
    Oversize,
    /// A zstd step offered input read none of it and wrote no output.
    NoProgress,
}

/// The running check of one upload: the compressed file is hashed and
/// counted, and at the same time decompressed into a [`NarHasher`].
pub struct NarUpload {
    file_hasher: sha2::Sha256,
    file_size: u64,
    quota: u64,
    decoder: zstd::stream::raw::Decoder<'static>,
    finished_frame: bool,
    nar: NarHasher,
    decode_error: Option<String>,
    failure: Ghost<Option<DecodeFailure>>,
    output: Vec<u8>,
    received: Ghost<Seq<u8>>,
    decoded: Ghost<Seq<u8>>,
    drained: Ghost<bool>,
}

/// `d` continues `p`: `p` is a prefix of `d`.
pub open spec fn extends(d: Seq<u8>, p: Seq<u8>) -> bool {
    is_prefix(p, d)
}

/// The most bytes that an upload against `quota` may send before it is
/// refused: one more than the quota, so that an oversized file is noticed.
pub open spec fn spec_read_limit(quota: u64) -> u64 {
    if quota == u64::MAX { u64::MAX } else { (quota + 1) as u64 }
}

impl NarUpload {
    /// The compressed bytes received so far.
    pub closed spec fn received(&self) -> Seq<u8> {
        self.received@
    }

    /// The decompressed bytes handed on so far.
    pub closed spec fn decoded(&self) -> Seq<u8> {
        self.decoded@
    }

    /// The cache quota the file is held to.
    pub closed spec fn quota(&self) -> u64 {
        self.quota
    }

    /// The NAR size that the client declared.
    pub closed spec fn nar_size(&self) -> u64 {
        self.nar.max_size
    }

    /// The first decompression error, if one occurred.
    pub closed spec fn decode_error(&self) -> Option<String> {
        self.decode_error
    }

    /// Where the decompression error came from, if one occurred.
    pub closed spec fn decode_failure(&self) -> Option<DecodeFailure> {
        self.failure@
    }

    /// Whether zstd reported an error in the decompressor's last operation.
    pub closed spec fn zstd_reported_error(&self) -> bool {
        zstd_failed(self.decoder)
    }

    /// What the decompressor had been given when its last operation ended.
    pub closed spec fn zstd_given(&self) -> Seq<u8> {
        zstd_offered(self.decoder)
    }

    /// Whether the decompressor's last step was offered input but read and
    /// wrote nothing.
    pub closed spec fn zstd_made_no_progress(&self) -> bool {
        zstd_stalled(self.decoder)
    }

    /// A decompression error is recorded exactly when its source is, and
    /// each source is borne out: zstd reported an error on bytes of the
    /// upload; or zstd made no
    /// progress; or the error is the oversize one and every continuation of
    /// the bytes received that zstd accepts decompresses to more than the
    /// declared size.
    pub open spec fn failure_explained(&self) -> bool {
        match self.decode_failure() {
            None => self.decode_error() is None,
            Some(DecodeFailure::Zstd) => {
                &&& self.decode_error() is Some
                &&& self.zstd_reported_error()
                &&& is_prefix(self.zstd_given(), self.received())
            },
            Some(DecodeFailure::NoProgress) => self.decode_error() is Some && self.zstd_made_no_progress(),
            Some(DecodeFailure::Oversize) => {
                &&& self.decode_error() matches Some(e) && e@ == oversize_text()
                &&& forall|rest: Seq<u8>| #[trigger] zstd_output(self.received() + rest) matches Some(o)
                    ==> o.len() > self.nar_size()
            },
        }
    }

    /// Whether the decompressor was drained since the last bytes came in.
    pub closed spec fn drained(&self) -> bool {
        self.drained@
    }

    /// The part of the state's consistency that does not involve the
    /// decompressor.
    closed spec fn wf_base(&self) -> bool {
        &&& digest::sha256_absorbed(self.file_hasher) == self.received@
        &&& self.file_size == self.received@.len()
        &&& self.output@.len() == OUTPUT_CHUNK
        &&& self.decoded@.len() <= self.nar.max_size
        &&& self.decode_error is None ==> {
            &&& self.nar.size == self.decoded@.len()
            &&& self.nar.hashed() == self.decoded@
        }
    }

    /// The decompressor has read `consumed` and written exactly what was
    /// handed on.
    closed spec fn decoder_in_step(&self, consumed: Seq<u8>) -> bool {
        &&& zstd_consumed(self.decoder) == consumed
        &&& zstd_emitted(self.decoder) == self.decoded@
        &&& self.finished_frame == zstd_frame_end(self.decoder)
        &&& emitted_is_final(self.decoded@, consumed)
    }

    /// The state's internal consistency.
    pub closed spec fn wf(&self) -> bool {
        &&& self.wf_base()
        &&& self.failure_explained()
        &&& self.decode_error is None ==> {
            &&& self.decoder_in_step(self.received@)
            &&& self.drained@ ==> zstd_output(self.received@) == Some(self.decoded@)
        }
    }

    /// Starts the check of an upload against the cache `quota`, for a NAR
    /// declared to have `nar_size` bytes. Fails only when no zstd decoder
    /// can be made.
    pub fn new(quota: u64, nar_size: u64) -> (r: Result<Self, String>)
        ensures
            r matches Ok(u) ==> {
                &&& u.wf()
                &&& u.received() == Seq::<u8>::empty()
                &&& u.decoded() == Seq::<u8>::empty()
                &&& u.quota() == quota
                &&& u.nar_size() == nar_size
                &&& u.decode_error() is None
                &&& u.decode_failure() is None
                &&& !u.drained()
            },
    {
        let decoder = match zstd_decoder_new() {
            Ok(d) => d,
            Err(e) => return Err(e),
        };
        let output = vec![0u8; OUTPUT_CHUNK];
        let u = NarUpload {
            file_hasher: digest::sha256_new(),
            file_size: 0,
            quota,
            decoder,
            finished_frame: false,
            nar: NarHasher::new(nar_size),
            decode_error: None,
            failure: Ghost(None),
            output,
            received: Ghost(Seq::empty()),
            decoded: Ghost(Seq::empty()),
            drained: Ghost(false),
        };
        assert forall|rest: Seq<u8>| #[trigger] zstd_output(Seq::<u8>::empty() + rest) is Some
            implies is_prefix(Seq::<u8>::empty(), zstd_output(Seq::<u8>::empty() + rest).unwrap()) by {
            let o = zstd_output(Seq::<u8>::empty() + rest).unwrap();
            assert(o.subrange(0, 0) =~= Seq::<u8>::empty());
        }
        assert(emitted_is_final(Seq::<u8>::empty(), Seq::<u8>::empty()));
        Ok(u)
    }

    /// How many bytes of the upload are read at most.
    pub fn read_limit(&self) -> (r: u64)
        ensures
            r == spec_read_limit(self.quota()),
    {
        self.quota.saturating_add(1)
    }

    /// The number of compressed bytes received so far.
    pub fn file_size(&self) -> (r: u64)
        requires
            self.wf(),
        ensures
            r == self.received().len(),
    {
        self.file_size
    }

    /// Hands decompressed bytes `output[0..written]` on to the NAR hasher.
    fn pass_on(&mut self, written: usize)
        requires
            old(self).wf_base(),
            old(self).decode_error is None,
            written <= old(self).output@.len(),
        ensures
            final(self).wf_base(),
            final(self).received == old(self).received,
            final(self).drained == old(self).drained,
            final(self).failure == old(self).failure,
            final(self).quota == old(self).quota,
            final(self).nar.max_size == old(self).nar.max_size,
            final(self).finished_frame == old(self).finished_frame,
            final(self).decoder == old(self).decoder,
            final(self).decode_error is None ==> {
                &&& final(self).decoded@ == old(self).decoded@ + old(self).output@.subrange(0, written as int)
                &&& final(self).nar.size == old(self).nar.size + written
            },
            final(self).decode_error matches Some(e) ==> {
                &&& final(self).decoded@ == old(self).decoded@
                &&& old(self).decoded@.len() + written > old(self).nar.max_size
                &&& e@ == oversize_text()
            },
            final(self).output@ == old(self).output@,
    {
        let chunk = &self.output.as_slice()[0..written];
        match self.nar.write(chunk) {
            Ok(_) => {
                proof {
                    self.decoded@ = self.decoded@ + chunk@;
                }
            },
            Err(e) => {
                self.decode_error = Some(e);
            },
        }
    }

    /// A decompressor that has written `emitted`, final for `consumed`, and
    /// more than `max` bytes: every accepted continuation of `consumed`
    /// decompresses to more than `max` bytes.
    proof fn lemma_emitted_too_long(emitted: Seq<u8>, consumed: Seq<u8>, max: u64)
        requires
            emitted_is_final(emitted, consumed),
            emitted.len() > max,
        ensures
            forall|rest: Seq<u8>| #[trigger] zstd_output(consumed + rest) matches Some(o) ==> o.len() > max,
    {
        assert forall|rest: Seq<u8>| #[trigger] zstd_output(consumed + rest) is Some
            implies zstd_output(consumed + rest).unwrap().len() > max by {
            assert(is_prefix(emitted, zstd_output(consumed + rest).unwrap()));
        }
    }

    /// A prefix of `s` is a prefix of anything that continues `s`.
    proof fn lemma_prefix_extends(p: Seq<u8>, s: Seq<u8>, t: Seq<u8>)
        requires
            is_prefix(p, s),
        ensures
            is_prefix(p, s + t),
    {
        assert((s + t).subrange(0, p.len() as int) =~= s.subrange(0, p.len() as int));
    }

    /// What holds of every accepted continuation of `p` holds of every
    /// accepted continuation of `p + t`.
    proof fn lemma_too_long_extends(p: Seq<u8>, t: Seq<u8>, max: u64)
        requires
            forall|rest: Seq<u8>| #[trigger] zstd_output(p + rest) matches Some(o) ==> o.len() > max,
        ensures
            forall|rest: Seq<u8>| #[trigger] zstd_output(p + t + rest) matches Some(o) ==> o.len() > max,
    {
        assert forall|rest: Seq<u8>| #[trigger] zstd_output(p + t + rest) is Some
            implies zstd_output(p + t + rest).unwrap().len() > max by {
            assert(p + t + rest =~= p + (t + rest));
            assert(zstd_output(p + (t + rest)) matches Some(o) ==> o.len() > max);
        }
    }

    /// Takes the next bytes of the upload, as the reader hands them over.
    /// Until decompression has failed, they are also decompressed and the
    /// output hashed. Decompression fails only where zstd reports an error,
    /// where a zstd step makes no progress, or where the output grows beyond
    /// the declared size (see `failure_explained`); no bytes, no failure.
    pub fn feed(&mut self, buf: &[u8])
        requires
            old(self).wf(),
            old(self).received().len() + buf@.len() <= spec_read_limit(old(self).quota()),
        ensures
            final(self).wf(),
            final(self).failure_explained(),
            final(self).received() == old(self).received() + buf@,
            final(self).quota() == old(self).quota(),
            final(self).nar_size() == old(self).nar_size(),
            !final(self).drained(),
            old(self).decode_error() is Some ==> {
                &&& final(self).decode_error() == old(self).decode_error()
                &&& final(self).decode_failure() == old(self).decode_failure()
                &&& final(self).decoded() == old(self).decoded()
            },
            old(self).decode_error() is None && buf@.len() == 0 ==> {
                &&& final(self).decode_error() is None
                &&& final(self).decoded() == old(self).decoded()
            },
            extends(final(self).decoded(), old(self).decoded()),
            final(self).decode_error() is None ==> emitted_is_final(final(self).decoded(), final(self).received()),
            final(self).decode_error() is None ==> (zstd_output(final(self).received()) matches Some(o)
                ==> is_prefix(final(self).decoded(), o)),
    {
        assert(self.decoded@.subrange(0, self.decoded@.len() as int) =~= self.decoded@);
        let ghost start_received = self.received@;
        let ghost start_decoded = self.decoded@;
        if self.decode_error.is_none() {
            let mut pos: usize = 0;
            assert(start_received + buf@.subrange(0, 0) =~= start_received);
            while pos < buf.len() && self.decode_error.is_none()
                invariant
                    self.wf_base(),
                    pos <= buf@.len(),
                    self.received@ == start_received,
                    self.received@ == old(self).received@,
                    self.drained == old(self).drained,
                    self.quota == old(self).quota,
                    self.nar.max_size == old(self).nar.max_size,
                    old(self).decode_error is None,
                    self.decode_error is None ==> self.decoder_in_step(start_received + buf@.subrange(0, pos as int)),
                    self.decode_error is None <==> self.failure@ is None,
                    self.failure@ matches Some(DecodeFailure::Zstd) ==> {
                        &&& zstd_failed(self.decoder)
                        &&& is_prefix(zstd_offered(self.decoder), start_received + buf@)
                    },
                    self.failure@ matches Some(DecodeFailure::NoProgress) ==> zstd_stalled(self.decoder),
                    self.failure@ matches Some(DecodeFailure::Oversize) ==> {
                        &&& self.decode_error matches Some(e) && e@ == oversize_text()
                        &&& forall|rest: Seq<u8>| #[trigger] zstd_output(start_received + buf@.subrange(0, pos as int) + rest)
                            matches Some(o) ==> o.len() > self.nar.max_size
                    },
                    is_prefix(start_decoded, self.decoded@),
                    start_decoded == old(self).decoded@,
                    buf@.len() == 0 ==> self.decode_error is None && self.decoded@ == start_decoded,
                decreases buf@.len() - pos + (self.nar.max_size - self.decoded@.len()) + (if self.decode_error is None { 1int } else { 0int }),
            {
                if self.finished_frame {
                    match zstd_reinit(&mut self.decoder) {
                        Ok(()) => {
                            self.finished_frame = false;
                        },
                        Err(e) => {
                            self.decode_error = Some(e);
                            proof {
                                let g = start_received + buf@.subrange(0, pos as int);
                                assert((start_received + buf@).subrange(0, g.len() as int) =~= g);
                                self.failure@ = Some(DecodeFailure::Zstd);
                            }
                        },
                    }
                }
                if self.decode_error.is_some() {
                    continue;
                }
                let input = &buf[pos..buf.len()];
                let step = zstd_run(&mut self.decoder, input, self.output.as_mut_slice());
                match step {
                    Err(e) => {
                        self.decode_error = Some(e);
                        proof {
                            let g = start_received + buf@;
                            assert(start_received + buf@.subrange(0, pos as int) + input@ =~= g);
                            assert(g.subrange(0, g.len() as int) =~= g);
                            self.failure@ = Some(DecodeFailure::Zstd);
                        }
                    },
                    Ok((hint, read, written)) => {
                        self.finished_frame = hint == 0;
                        if read == 0 && written == 0 {
                            self.decode_error = Some(String::from_str("zstd made no progress"));
                            proof {
                                self.failure@ = Some(DecodeFailure::NoProgress);
                            }
                        } else {
                            let ghost before = self.decoded@;
                            self.pass_on(written);
                            proof {
                                assert(input@.subrange(0, read as int) =~= buf@.subrange(pos as int, pos + read));
                                assert(start_received + buf@.subrange(0, pos as int) + buf@.subrange(pos as int, pos + read)
                                    =~= start_received + buf@.subrange(0, pos + read));
                                if self.decode_error is None {
                                    assert(self.decoded@.subrange(0, start_decoded.len() as int) =~= before.subrange(0, start_decoded.len() as int));
                                } else {
                                    Self::lemma_emitted_too_long(zstd_emitted(self.decoder), zstd_consumed(self.decoder), self.nar.max_size);
                                    self.failure@ = Some(DecodeFailure::Oversize);
                                }
                            }
                            pos = pos + read;
                        }
                    },
                }
            }
            proof {
                if self.decode_error is None {
                    assert(buf@.subrange(0, pos as int) =~= buf@);
                }
                if self.failure@ matches Some(DecodeFailure::Oversize) {
                    let p = start_received + buf@.subrange(0, pos as int);
                    Self::lemma_too_long_extends(p, buf@.subrange(pos as int, buf@.len() as int), self.nar.max_size);
                    assert(p + buf@.subrange(pos as int, buf@.len() as int) =~= start_received + buf@);
                }
            }
        } else {
            proof {
                if self.failure@ matches Some(DecodeFailure::Oversize) {
                    Self::lemma_too_long_extends(start_received, buf@, self.nar.max_size);
                }
                if self.failure@ matches Some(DecodeFailure::Zstd) {
                    Self::lemma_prefix_extends(zstd_offered(self.decoder), start_received, buf@);
                }
            }
        }
        digest::sha256_update(&mut self.file_hasher, buf);
        self.file_size = self.file_size + buf.len() as u64;
        proof {
            self.received@ = self.received@ + buf@;
            self.drained@ = false;
            if self.decode_error is None {
                let r = self.received@;
                assert(r + Seq::<u8>::empty() =~= r);
                assert(zstd_output(r + Seq::<u8>::empty()) matches Some(o) ==> is_prefix(self.decoded@, o));
            }
        }
    }

    /// Drains the decompressor once all input has been fed: offers it no
    /// more input until it leaves room in the output buffer, handing what it
    /// writes on to the NAR hasher. Does nothing once decompression failed.
    /// Afterwards, without an error, what was handed on is all that zstd
    /// makes of the bytes received; there is an error whenever zstd refuses
    /// them or they decompress to more than the declared size, and an error
    /// arises only as `failure_explained` says.
    pub fn flush(&mut self)
        requires
            old(self).wf(),
        ensures
            final(self).wf(),
            final(self).failure_explained(),
            final(self).received() == old(self).received(),
            final(self).quota() == old(self).quota(),
            final(self).nar_size() == old(self).nar_size(),
            final(self).drained(),
            old(self).decode_error() is Some ==> {
                &&& final(self).decode_error() == old(self).decode_error()
                &&& final(self).decode_failure() == old(self).decode_failure()
                &&& final(self).decoded() == old(self).decoded()
            },
            extends(final(self).decoded(), old(self).decoded()),
            final(self).decode_error() is None ==> zstd_output(final(self).received()) == Some(final(self).decoded()),
            final(self).decode_error() is None ==> final(self).decoded().len() <= final(self).nar_size(),
            (zstd_output(final(self).received()) is None
                || zstd_output(final(self).received()).unwrap().len() > final(self).nar_size())
                ==> final(self).decode_error() is Some,
    {
        assert(self.decoded@.subrange(0, self.decoded@.len() as int) =~= self.decoded@);
        if self.decode_error.is_some() {
            proof {
                self.drained@ = true;
            }
            return;
        }
        let ghost start_decoded = self.decoded@;
        loop
            invariant_except_break
                self.decode_error is None,
            invariant
                self.wf_base(),
                is_prefix(start_decoded, self.decoded@),
                start_decoded == old(self).decoded@,
                self.received@ == old(self).received@,
                self.quota == old(self).quota,
                self.nar.max_size == old(self).nar.max_size,
                old(self).decode_error is None,
                self.decode_error is None ==> self.decoder_in_step(self.received@),
                self.failure_explained(),
            ensures
                self.wf_base(),
                self.failure_explained(),
                is_prefix(start_decoded, self.decoded@),
                self.received@ == old(self).received@,
                self.quota == old(self).quota,
                self.nar.max_size == old(self).nar.max_size,
                self.decode_error is None ==> {
                    &&& self.decoder_in_step(self.received@)
                    &&& zstd_output(self.received@) == Some(self.decoded@)
                },
            decreases self.nar.max_size - self.decoded@.len() + (if self.decode_error is None { 1int } else { 0int }),
        {
            let empty: Vec<u8> = Vec::new();
            let ghost consumed_before = zstd_consumed(self.decoder);
            match zstd_run(&mut self.decoder, empty.as_slice(), self.output.as_mut_slice()) {
                Err(e) => {
                    self.decode_error = Some(e);
                    proof {
                        let g = self.received@;
                        assert(g + empty@ =~= g);
                        assert(g.subrange(0, g.len() as int) =~= g);
                        self.failure@ = Some(DecodeFailure::Zstd);
                    }
                    break;
                },
                Ok((hint, _read, written)) => {
                    self.finished_frame = hint == 0;
                    let ghost before = self.decoded@;
                    assert(empty@.subrange(0, 0) =~= Seq::<u8>::empty());
                    assert(consumed_before + Seq::<u8>::empty() =~= consumed_before);
                    self.pass_on(written);
                    if self.decode_error.is_some() {
                        proof {
                            Self::lemma_emitted_too_long(zstd_emitted(self.decoder), zstd_consumed(self.decoder), self.nar.max_size);
                            self.failure@ = Some(DecodeFailure::Oversize);
                        }
                        break;
                    }
                    assert(self.decoded@.subrange(0, start_decoded.len() as int) =~= before.subrange(0, start_decoded.len() as int));
                    if written < OUTPUT_CHUNK {
                        break;
                    }
                },
            }
        }
        proof {
            self.drained@ = true;
        }
    }

    /// Closes the upload. On success: the Nix base-32 SHA-256 of the
    /// compressed data and its size; otherwise why it is refused. The quota
    /// is checked first, then decompression, then the declared hash and
    /// size of the NAR against what was decompressed. Once drained, the
    /// upload is accepted exactly when it fits the quota and zstd makes of
    /// it a NAR of the declared size and hash (unless zstd failed for want
    /// of memory or made no progress, reported as a decompression error).
    pub fn finish(self, nar_hash: &str) -> (r: Result<(String, u64), StoreError>)
        requires
            self.wf(),
        ensures
            self.received().len() > self.quota() ==> r == Err::<(String, u64), StoreError>(StoreError::OverQuota),
            self.received().len() <= self.quota() && self.decode_error() is Some
                ==> r == Err::<(String, u64), StoreError>(StoreError::Decompress(self.decode_error().unwrap())),
            self.received().len() <= self.quota() && self.decode_error() is None ==> {
                if self.decoded().len() == self.nar_size() && digest::nix_sha256(self.decoded()) == nar_hash@ {
                    r matches Ok((h, n)) && h@ == digest::nix_sha256(self.received()) && n == self.received().len()
                } else {
                    r == Err::<(String, u64), StoreError>(StoreError::Mismatch)
                }
            },
            self.drained() ==> (r is Ok ==> {
                &&& self.received().len() <= self.quota()
                &&& zstd_output(self.received()) matches Some(d)
                &&& d.len() == self.nar_size()
                &&& digest::nix_sha256(d) == nar_hash@
            }),
            self.drained() && self.received().len() <= self.quota() && (zstd_output(self.received()) matches Some(d)
                && d.len() == self.nar_size() && digest::nix_sha256(d) == nar_hash@) ==> {
                ||| r matches Ok((h, n)) && h@ == digest::nix_sha256(self.received()) && n == self.received().len()
                ||| self.decode_failure() matches Some(DecodeFailure::Zstd)
                ||| self.decode_failure() matches Some(DecodeFailure::NoProgress)
            },
            self.drained() && self.received().len() <= self.quota() && self.decode_error() is None ==> (r is Ok <==> {
                &&& zstd_output(self.received()) matches Some(d)
                &&& d.len() == self.nar_size()
                &&& digest::nix_sha256(d) == nar_hash@
            }),
    {
        if self.file_size > self.quota {
            return Err(StoreError::OverQuota);
        }
        if let Some(e) = self.decode_error {
            proof {
                let r = self.received@;
                assert(r + Seq::<u8>::empty() =~= r);
                assert(zstd_output(r + Seq::<u8>::empty()) matches Some(o) ==> (self.failure@ matches Some(DecodeFailure::Oversize) ==> o.len() > self.nar_size()));
            }
            return Err(StoreError::Decompress(e));
        }
        let declared_size = self.nar.max_size;
        let (nar_digest, nar_size) = self.nar.into_digest();
        let nar_text = nixbase32::to_nix_base32(nar_digest.as_slice());
        let declared = String::from_str(nar_hash);
        if nar_text != declared || nar_size != declared_size {
            return Err(StoreError::Mismatch);
        }
        let file_digest = digest::sha256_finalize(self.file_hasher);
        let file_text = nixbase32::to_nix_base32(file_digest.as_slice());
        Ok((file_text, self.file_size))
    }
}

} // verus!
