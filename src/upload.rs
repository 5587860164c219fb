//! The upload side of the transfer engine.
//!
//! An upload streams one file part chunk by chunk into a staging file beside the store,
//! which is renamed over the destination only once the whole part has been
//! accepted. The session below decides, chunk by chunk, whether the bytes may
//! be written; the bytes themselves never stay in memory, only their count
//! (and, in the proof, their record).

use vstd::prelude::*;
use vstd::string::StringExecFns;
use crate::names::{safe_name, is_safe_name};
use crate::store::{StoreView, upload_spec};

verus! {

/// The size bound of an upload unless configured otherwise: one gibibyte.
pub const DEFAULT_MAX_UPLOAD: u64 = 1073741824;

/// The bytes of a part, chunk after chunk.
pub open spec fn flatten(chunks: Seq<Seq<u8>>) -> Seq<u8>
    decreases chunks.len(),
{
    if chunks.len() == 0 {
        Seq::empty()
    } else {
        flatten(chunks.drop_last()) + chunks.last()
    }
}

/// What an upload bounded by `max` bytes has accepted after `chunks`: the
/// bytes so far, or none once the running count went over the bound.
pub open spec fn received(max: nat, chunks: Seq<Seq<u8>>) -> Option<Seq<u8>>
    decreases chunks.len(),
{
    if chunks.len() == 0 {
        Some(Seq::empty())
    } else {
        match received(max, chunks.drop_last()) {
            Some(d) => if d.len() + chunks.last().len() <= max {
                Some(d + chunks.last())
            } else {
                None
            },
            None => None,
        }
    }
}

/// The bytes an upload bounded by `max` took in after `chunks`: everything up
/// to the chunk that went over the bound, which is not taken, nor any after.
pub open spec fn accepted(max: nat, chunks: Seq<Seq<u8>>) -> Seq<u8>
    decreases chunks.len(),
{
    if chunks.len() == 0 {
        Seq::empty()
    } else if received(max, chunks.drop_last()) is Some
        && accepted(max, chunks.drop_last()).len() + chunks.last().len() <= max {
        accepted(max, chunks.drop_last()) + chunks.last()
    } else {
        accepted(max, chunks.drop_last())
    }
}

#[derive(Debug, Clone, Copy, PartialEq, Eq, Structural)]
pub enum UploadError {
    /// The part's file name may not stand in the store.
    InvalidName,
    /// The part is larger than the bound.
    PayloadTooLarge,
    /// Writing to the store failed.
    Io,
}

impl UploadError {
    /// The HTTP status that reports the error.
    pub fn status_code(&self) -> (r: u16)
        ensures
            *self is InvalidName ==> r == 400,
            *self is PayloadTooLarge ==> r == 413,
            *self is Io ==> r == 500,
    {
        match self {
            UploadError::InvalidName => 400,
            UploadError::PayloadTooLarge => 413,
            UploadError::Io => 500,
        }
    }
}

/// What to do with a chunk that arrived.
#[derive(Debug, Clone, Copy, PartialEq, Eq, Structural)]
pub enum ChunkStep {
    /// Append the chunk to the staging file.
    Write,
    /// Stop: the part is over the bound. Nothing more is written for it.
    TooLarge,
}

/// One file part in flight, tracking the bytes accepted against the bound.
pub struct UploadSession {
    name: String,
    max: u64,
    written: u64,
    over: bool,
    chunks: Ghost<Seq<Seq<u8>>>,
}

impl UploadSession {
    /// The destination name of the part.
    pub closed spec fn name_view(&self) -> Seq<char> {
        self.name@
    }

    /// The size bound, in bytes.
    pub closed spec fn max_view(&self) -> nat {
        self.max as nat
    }

    /// The chunks that arrived so far.
    pub closed spec fn chunks_view(&self) -> Seq<Seq<u8>> {
        self.chunks@
    }

    /// What has been accepted so far, or none once over the bound.
    pub open spec fn outcome(&self) -> Option<Seq<u8>> {
        received(self.max_view(), self.chunks_view())
    }

    pub closed spec fn wf(&self) -> bool {
        &&& safe_name(self.name@)
        &&& !self.over <==> received(self.max as nat, self.chunks@) is Some
        &&& self.written as nat == accepted(self.max as nat, self.chunks@).len()
        &&& self.written <= self.max
    }

    /// Opens a session for a part named `name`, bounded by `max` bytes.
    /// A name that may not stand in the store is refused.
    pub fn start(name: &str, max: u64) -> (r: Result<UploadSession, UploadError>)
        ensures
            safe_name(name@) <==> r is Ok,
            !safe_name(name@) ==> r == Err::<UploadSession, UploadError>(UploadError::InvalidName),
            r matches Ok(s) ==> s.wf() && s.name_view() == name@ && s.max_view() == max as nat
                && s.chunks_view() == Seq::<Seq<u8>>::empty(),
    {
        if !is_safe_name(name) {
            return Err(UploadError::InvalidName);
        }
        Ok(UploadSession {
            name: String::from_str(name),
            max,
            written: 0,
            over: false,
            chunks: Ghost(Seq::empty()),
        })
    }

    /// Takes the next chunk of the part. It may be written exactly when the
    /// bytes received so far, this chunk included, stay within the bound;
    /// once over, every later chunk is refused too.
    pub fn accept(&mut self, chunk: &[u8]) -> (r: ChunkStep)
        requires
            old(self).wf(),
        ensures
            final(self).wf(),
            final(self).name_view() == old(self).name_view(),
            final(self).max_view() == old(self).max_view(),
            final(self).chunks_view() == old(self).chunks_view().push(chunk@),
            r is Write <==> final(self).outcome() is Some,
            r is Write ==> final(self).outcome() == Some(old(self).outcome()->0 + chunk@),
    {
        let ghost prev = self.chunks@;
        let ghost next = prev.push(chunk@);
        assert(next.drop_last() =~= prev);
        proof {
            lemma_accepted_is_received(self.max as nat, prev);
        }
        self.chunks = Ghost(next);
        if self.over {
            return ChunkStep::TooLarge;
        }
        let len = chunk.len() as u64;
        if len > self.max - self.written {
            self.over = true;
            ChunkStep::TooLarge
        } else {
            self.written = self.written + len;
            ChunkStep::Write
        }
    }

    /// The number of bytes accepted so far; after a refusal, those accepted
    /// before it.
    pub fn written(&self) -> (r: u64)
        requires
            self.wf(),
        ensures
            r as nat == accepted(self.max_view(), self.chunks_view()).len(),
            self.outcome() matches Some(d) ==> r as nat == d.len(),
            r as nat <= self.max_view(),
    {
        proof {
            lemma_accepted_is_received(self.max as nat, self.chunks@);
        }
        self.written
    }

    /// The part's destination name.
    pub fn name(&self) -> (r: &str)
        ensures
            r@ == self.name_view(),
    {
        self.name.as_str()
    }

    /// Ends the part: the number of bytes to commit, or the refusal. On
    /// success the store takes the part's bytes whole under its name, in
    /// place of what the name held; on refusal the store is left as it was.
    pub fn finish(&self) -> (r: Result<u64, UploadError>)
        requires
            self.wf(),
        ensures
            r is Ok <==> self.outcome() is Some,
            r matches Ok(n) ==> n as nat == self.outcome()->0.len(),
            r is Err ==> r == Err::<u64, UploadError>(UploadError::PayloadTooLarge),
            forall|st: StoreView| #[trigger] upload_spec(st, self.name_view(), self.max_view(), self.chunks_view())
                == if r is Ok {
                    st.insert(self.name_view(), self.outcome()->0)
                } else {
                    st
                },
    {
        proof {
            lemma_accepted_is_received(self.max as nat, self.chunks@);
        }
        if self.over {
            Err(UploadError::PayloadTooLarge)
        } else {
            Ok(self.written)
        }
    }
}

/// How a part of a multipart upload begins.
pub enum PartStart {
    /// A plain form field, with no file name: it is passed over.
    Skip,
    /// A file part: its bytes are streamed through the session.
    Stream(UploadSession),
    /// A file part that cannot be stored: the request stops with the error.
    Refuse(UploadError),
}

/// Decides how a part carrying the file name `file_name` (if any) begins,
/// for uploads bounded by `max` bytes.
pub fn begin_part(file_name: Option<&str>, max: u64) -> (r: PartStart)
    ensures
        file_name is None <==> r is Skip,
        (file_name matches Some(n) && !safe_name(n@)) <==> r matches PartStart::Refuse(UploadError::InvalidName),
        r is Refuse ==> r matches PartStart::Refuse(UploadError::InvalidName),
        r matches PartStart::Stream(s) ==> (file_name matches Some(n) && s.wf() && s.name_view() == n@
            && s.max_view() == max as nat && s.chunks_view() == Seq::<Seq<u8>>::empty()),
{
    match file_name {
        None => PartStart::Skip,
        Some(n) => match UploadSession::start(n, max) {
            Ok(s) => PartStart::Stream(s),
            Err(e) => PartStart::Refuse(e),
        },
    }
}

/// While nothing went over the bound, what was taken in is what was
/// received.
pub proof fn lemma_accepted_is_received(max: nat, chunks: Seq<Seq<u8>>)
    ensures
        received(max, chunks) matches Some(d) ==> accepted(max, chunks) == d,
    decreases chunks.len(),
{
    if chunks.len() > 0 {
        lemma_accepted_is_received(max, chunks.drop_last());
    }
}

/// Whatever was received is the chunks' bytes in order.
pub proof fn lemma_received_is_flatten(max: nat, chunks: Seq<Seq<u8>>)
    ensures
        received(max, chunks) matches Some(d) ==> d == flatten(chunks),
    decreases chunks.len(),
{
    if chunks.len() > 0 {
        lemma_received_is_flatten(max, chunks.drop_last());
    }
}

/// A part is received in full exactly when its size is within the bound.
pub proof fn lemma_received_iff_within(max: nat, chunks: Seq<Seq<u8>>)
    ensures
        received(max, chunks) is Some <==> flatten(chunks).len() <= max,
        flatten(chunks).len() <= max ==> received(max, chunks) == Some(flatten(chunks)),
    decreases chunks.len(),
{
    lemma_received_is_flatten(max, chunks);
    if chunks.len() > 0 {
        lemma_received_iff_within(max, chunks.drop_last());
        lemma_received_is_flatten(max, chunks.drop_last());
    }
}

} // verus!
