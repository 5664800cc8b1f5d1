//! The download engine's per-candidate state machine.  A download fetches,
//! streams into a temp file beside the target, best-effort stamps the
//! remote modification time, and commits by an atomic same-directory
//! rename — so no partial file is ever visible at the final path.

use vstd::prelude::*;

verus! {

/// The phases of one candidate's download.
#[derive(Clone, Copy, Debug, PartialEq, Eq, Structural)]
pub enum DlState {
    Pending,
    Fetching,
    Writing,
    Finalizing,
    Committed,
    Failed,
}

/// What can happen to a download: the driver's observations, fed back into
/// the machine.
#[derive(Clone, Copy, Debug, PartialEq, Eq, Structural)]
pub enum DlEvent {
    /// The download request was issued.
    FetchStart,
    /// A success status arrived and the temp file was created; `total` is
    /// the advertised content length, zero when absent.
    FetchOk { total: u64 },
    /// A non-success status or a transport error: terminal, no temp file.
    FetchErr,
    /// One chunk of `n` bytes reached the temp file.
    Chunk { n: u64 },
    /// An I/O error while streaming: the temp file is deleted.
    WriteErr,
    /// The body ended; every byte is in the temp file.
    BodyDone,
    /// The modification-time stamp was attempted, best effort.
    MtimeSet { ok: bool },
    /// The temp file was renamed onto the target path.
    RenameOk,
    /// The rename failed; the temp file stays behind as crash debris.
    RenameErr,
}

/// One download's state: its phase, byte progress, and which files exist.
#[derive(Clone, Copy, Debug, PartialEq, Eq, Structural)]
pub struct Download {
    pub state: DlState,
    pub written: u64,
    pub total: u64,
    pub temp_exists: bool,
    pub target_exists: bool,
    pub body_done: bool,
    pub mtime_ok: bool,
}

/// The machine's invariant: the target path exists exactly in the
/// committed state; before the body streams nothing is on disk and no byte
/// counts; a committed download has consumed its temp file and its whole
/// body.
pub open spec fn dl_wf(d: Download) -> bool {
    &&& (d.target_exists <==> d.state is Committed)
    &&& (d.state is Pending || d.state is Fetching) ==> (!d.temp_exists && d.written == 0
        && !d.body_done)
    &&& (d.state is Writing ==> d.temp_exists && !d.body_done)
    &&& (d.state is Finalizing ==> d.body_done)
    &&& (d.state is Committed ==> !d.temp_exists && d.body_done)
}

/// The initial state of a download.
pub open spec fn dl_init() -> Download {
    Download {
        state: DlState::Pending,
        written: 0,
        total: 0,
        temp_exists: false,
        target_exists: false,
        body_done: false,
        mtime_ok: false,
    }
}

/// One transition.  An event that does not belong to the current phase
/// changes nothing; the driver's methods below exclude that case anyway.
pub open spec fn dl_step(d: Download, e: DlEvent) -> Download {
    match e {
        DlEvent::FetchStart => if d.state is Pending {
            Download { state: DlState::Fetching, ..d }
        } else {
            d
        },
        DlEvent::FetchOk { total } => if d.state is Fetching {
            Download { state: DlState::Writing, total, temp_exists: true, ..d }
        } else {
            d
        },
        DlEvent::FetchErr => if d.state is Fetching {
            Download { state: DlState::Failed, ..d }
        } else {
            d
        },
        DlEvent::Chunk { n } => if d.state is Writing && d.written + n <= u64::MAX {
            Download { written: (d.written + n) as u64, ..d }
        } else {
            d
        },
        DlEvent::WriteErr => if d.state is Writing {
            Download { state: DlState::Failed, temp_exists: false, ..d }
        } else {
            d
        },
        DlEvent::BodyDone => if d.state is Writing {
            Download { state: DlState::Finalizing, body_done: true, ..d }
        } else {
            d
        },
        DlEvent::MtimeSet { ok } => if d.state is Finalizing {
            Download { mtime_ok: ok, ..d }
        } else {
            d
        },
        DlEvent::RenameOk => if d.state is Finalizing && d.temp_exists {
            Download { state: DlState::Committed, temp_exists: false, target_exists: true, ..d }
        } else {
            d
        },
        DlEvent::RenameErr => if d.state is Finalizing {
            Download { state: DlState::Failed, ..d }
        } else {
            d
        },
    }
}

/// The machine after a run of events.
pub open spec fn dl_run(d: Download, evs: Seq<DlEvent>) -> Download
    decreases evs.len(),
{
    if evs.len() == 0 {
        d
    } else {
        dl_run(dl_step(d, evs[0]), evs.drop_first())
    }
}

/// Every step preserves the invariant.
pub proof fn lemma_dl_step_wf(d: Download, e: DlEvent)
    requires
        dl_wf(d),
    ensures
        dl_wf(dl_step(d, e)),
{
}

/// Atomic commit: from the initial state, whatever happens — including an
/// interruption at any byte offset of the Writing phase — the target path
/// exists only once the download has committed, so no partial bytes are
/// ever observable there; and a committed download had streamed its whole
/// body.
pub proof fn lemma_atomic_commit(evs: Seq<DlEvent>)
    ensures
        dl_wf(dl_run(dl_init(), evs)),
        !(dl_run(dl_init(), evs).state is Committed) ==> !dl_run(dl_init(), evs).target_exists,
        dl_run(dl_init(), evs).state is Committed ==> dl_run(dl_init(), evs).body_done,
{
    lemma_dl_run_wf(dl_init(), evs);
}

proof fn lemma_dl_run_wf(d: Download, evs: Seq<DlEvent>)
    requires
        dl_wf(d),
    ensures
        dl_wf(dl_run(d, evs)),
    decreases evs.len(),
{
    if evs.len() > 0 {
        lemma_dl_step_wf(d, evs[0]);
        lemma_dl_run_wf(dl_step(d, evs[0]), evs.drop_first());
    }
}

/// An interruption of the Writing phase deletes the temp file and leaves
/// the target path untouched, at whatever byte offset it strikes.
pub proof fn lemma_write_failure_clean(d: Download)
    requires
        dl_wf(d),
        d.state is Writing,
    ensures
        !dl_step(d, DlEvent::WriteErr).temp_exists,
        !dl_step(d, DlEvent::WriteErr).target_exists,
        dl_step(d, DlEvent::WriteErr).state is Failed,
{
}

impl Download {
    /// A fresh download, about to issue its request.
    pub fn new() -> (d: Download)
        ensures
            d == dl_init(),
            dl_wf(d),
    {
        Download {
            state: DlState::Pending,
            written: 0,
            total: 0,
            temp_exists: false,
            target_exists: false,
            body_done: false,
            mtime_ok: false,
        }
    }

    /// The request goes out.
    pub fn start_fetch(&mut self)
        requires
            dl_wf(*old(self)),
            old(self).state is Pending,
        ensures
            *final(self) == dl_step(*old(self), DlEvent::FetchStart),
            dl_wf(*final(self)),
    {
        self.state = DlState::Fetching;
    }

    /// A success status arrived and the temp file was created.
    pub fn fetch_ok(&mut self, total: u64)
        requires
            dl_wf(*old(self)),
            old(self).state is Fetching,
        ensures
            *final(self) == dl_step(*old(self), DlEvent::FetchOk { total }),
            dl_wf(*final(self)),
    {
        self.state = DlState::Writing;
        self.total = total;
        self.temp_exists = true;
    }

    /// A non-success status or transport error: terminal failure, nothing
    /// on disk.
    pub fn fetch_failed(&mut self)
        requires
            dl_wf(*old(self)),
            old(self).state is Fetching,
        ensures
            *final(self) == dl_step(*old(self), DlEvent::FetchErr),
            dl_wf(*final(self)),
            !final(self).target_exists,
            !final(self).temp_exists,
    {
        self.state = DlState::Failed;
    }

    /// `n` more bytes reached the temp file; progress reporting reads
    /// `written`.
    pub fn wrote_chunk(&mut self, n: u64)
        requires
            dl_wf(*old(self)),
            old(self).state is Writing,
            old(self).written + n <= u64::MAX,
        ensures
            *final(self) == dl_step(*old(self), DlEvent::Chunk { n }),
            dl_wf(*final(self)),
            final(self).written == old(self).written + n,
    {
        self.written = self.written + n;
    }

    /// The stream broke; the driver deleted the temp file.
    pub fn write_failed(&mut self)
        requires
            dl_wf(*old(self)),
            old(self).state is Writing,
        ensures
            *final(self) == dl_step(*old(self), DlEvent::WriteErr),
            dl_wf(*final(self)),
            !final(self).target_exists,
            !final(self).temp_exists,
    {
        self.state = DlState::Failed;
        self.temp_exists = false;
    }

    /// The whole body is in the temp file.
    pub fn body_finished(&mut self)
        requires
            dl_wf(*old(self)),
            old(self).state is Writing,
        ensures
            *final(self) == dl_step(*old(self), DlEvent::BodyDone),
            dl_wf(*final(self)),
    {
        self.state = DlState::Finalizing;
        self.body_done = true;
    }

    /// The modification-time stamp was attempted; failure here is logged,
    /// never fatal.
    pub fn mtime_applied(&mut self, ok: bool)
        requires
            dl_wf(*old(self)),
            old(self).state is Finalizing,
        ensures
            *final(self) == dl_step(*old(self), DlEvent::MtimeSet { ok }),
            dl_wf(*final(self)),
    {
        self.mtime_ok = ok;
    }

    /// The atomic rename landed: the target path now exists, the temp file
    /// is gone.
    pub fn committed(&mut self)
        requires
            dl_wf(*old(self)),
            old(self).state is Finalizing,
            old(self).temp_exists,
        ensures
            *final(self) == dl_step(*old(self), DlEvent::RenameOk),
            dl_wf(*final(self)),
            final(self).target_exists,
    {
        self.state = DlState::Committed;
        self.temp_exists = false;
        self.target_exists = true;
    }

    /// The rename failed; the temp file stays behind as crash debris for
    /// the operator.
    pub fn rename_failed(&mut self)
        requires
            dl_wf(*old(self)),
            old(self).state is Finalizing,
        ensures
            *final(self) == dl_step(*old(self), DlEvent::RenameErr),
            dl_wf(*final(self)),
            !final(self).target_exists,
    {
        self.state = DlState::Failed;
    }
}

} // verus!
