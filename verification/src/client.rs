//! Screencopy protocol client state: output registry, capability
//! negotiation, and per-output capture sessions.
//!
//! The embedding application owns the compositor socket; it binds the
//! capabilities, reads protocol events and feeds them into this state
//! machine, which tracks what the events mean: which outputs are
//! capturable, and whether each in-flight capture request is still
//! pending, ready, or failed.  Each session moves from pending to exactly
//! one of the two terminal states, and a second request for the same
//! output overwrites the pending session rather than queueing.

use crate::error::CaptureError;
use vstd::prelude::*;

verus! {

/// A capturable display output: identity and mode.
///
/// `scale_millis` is the output scale factor in thousandths.
#[derive(Debug, Clone)]
pub struct OutputInfo {
    /// Unique name of the output, e.g. a connector name.
    pub name: String,
    /// Width in pixels.
    pub width: u32,
    /// Height in pixels.
    pub height: u32,
    /// Refresh rate in hertz.
    pub refresh_rate: u32,
    /// Scale factor in thousandths.
    pub scale_millis: u32,
}

/// The fourcc code of the 32-bit little-endian XRGB layout used for
/// shared-memory destination buffers.
pub const DRM_FORMAT_XRGB8888: u32 = 0x34325258;

/// The fourcc code of the 32-bit little-endian ARGB layout.
pub const DRM_FORMAT_ARGB8888: u32 = 0x34325241;

/// A raw captured buffer: either CPU-mapped shared memory or a
/// GPU-resident buffer description.
///
/// A `Dmabuf` carries one file descriptor per plane; each descriptor is a
/// distinct operating-system resource that its eventual owner must close
/// exactly once.
#[derive(Debug)]
pub enum CaptureBuffer {
    /// CPU-mapped pixels with an explicit row pitch.
    Shm { data: Vec<u8>, stride: u32, width: u32, height: u32, format: u32 },
    /// GPU-resident planes described by a format modifier.
    Dmabuf {
        width: u32,
        height: u32,
        format: u32,
        modifier: u64,
        num_planes: u32,
        fds: Vec<i32>,
        offsets: Vec<u32>,
        strides: Vec<u32>,
    },
}

/// Where an in-flight capture request stands.
#[derive(Debug, Clone, Copy, PartialEq, Eq, Structural)]
pub enum SessionPhase {
    /// Requested; no completion signal yet.
    Pending,
    /// The compositor signalled completion.
    Ready,
    /// The compositor signalled failure.
    Failed,
}

/// One in-flight capture request, keyed by output name.
#[derive(Debug, Clone)]
pub struct CaptureSession {
    /// The output this request captures.
    pub output: String,
    /// Set when the compositor signalled completion.
    pub ready: bool,
    /// Set when the compositor signalled failure.
    pub failed: bool,
}

/// A protocol event as the embedding event loop reports it.
#[derive(Debug)]
pub enum ProtocolEvent {
    /// The registry advertised or reconfigured an output.
    OutputAdded(OutputInfo),
    /// The frame for the named output completed.
    FrameReady(String),
    /// The frame for the named output failed at protocol level.
    FrameFailed(String),
}

/// Protocol client state: capability versions, the output registry, and
/// the in-flight capture sessions.
#[derive(Debug)]
pub struct NiriScreencopyClient {
    /// Whether both required capabilities were bound.
    pub connected: bool,
    /// Bound screencopy-manager version; meaningful when connected.
    pub screencopy_version: u32,
    /// Bound shared-memory-pool version; meaningful when connected.
    pub shm_version: u32,
    /// Known outputs, one entry per name.
    pub outputs: Vec<OutputInfo>,
    /// In-flight capture sessions, at most one per output name.
    pub sessions: Vec<CaptureSession>,
}

impl OutputInfo {
    /// The destination buffer for this mode fits the machine: the row
    /// pitch fits the stride field and the whole allocation fits memory.
    pub open spec fn wf(self) -> bool {
        self.width * 4 <= u32::MAX && self.width * 4 * self.height <= usize::MAX
    }
}

impl CaptureSession {
    /// The two terminal states exclude each other.
    pub open spec fn wf(self) -> bool {
        !(self.ready && self.failed)
    }

    /// The phase the two flags encode.
    pub open spec fn phase(self) -> SessionPhase {
        if self.ready {
            SessionPhase::Ready
        } else if self.failed {
            SessionPhase::Failed
        } else {
            SessionPhase::Pending
        }
    }
}

/// Whether `s` knows an output named `name`.
pub open spec fn has_output(s: Seq<OutputInfo>, name: Seq<char>) -> bool {
    exists|i: int| 0 <= i < s.len() && s[i].name@ == name
}

/// The index of the output named `name`, when one exists.
pub open spec fn output_index(s: Seq<OutputInfo>, name: Seq<char>) -> int {
    choose|i: int| 0 <= i < s.len() && s[i].name@ == name
}

/// The descriptor of the output named `name`; meaningful only when
/// `has_output` holds.
pub open spec fn output_for(s: Seq<OutputInfo>, name: Seq<char>) -> OutputInfo {
    s[output_index(s, name)]
}

/// No two outputs share a name.
pub open spec fn outputs_unique(s: Seq<OutputInfo>) -> bool {
    forall|i: int, j: int| 0 <= i < j < s.len() ==> s[i].name@ != s[j].name@
}

/// Whether `s` holds a session for output `name`.
pub open spec fn has_session(s: Seq<CaptureSession>, name: Seq<char>) -> bool {
    exists|i: int| 0 <= i < s.len() && s[i].output@ == name
}

/// The index of the session for `name`, when one exists.
pub open spec fn session_index(s: Seq<CaptureSession>, name: Seq<char>) -> int {
    choose|i: int| 0 <= i < s.len() && s[i].output@ == name
}

/// The phase of the session tracked for `name`, when one exists.
pub open spec fn phase_for(s: Seq<CaptureSession>, name: Seq<char>) -> Option<SessionPhase> {
    if has_session(s, name) {
        Some(s[session_index(s, name)].phase())
    } else {
        None
    }
}

/// No two sessions track the same output.
pub open spec fn sessions_unique(s: Seq<CaptureSession>) -> bool {
    forall|i: int, j: int| 0 <= i < j < s.len() ==> s[i].output@ != s[j].output@
}

/// With unique names, the output found at `i` is the one `output_index`
/// denotes.
proof fn lemma_output_index_is(s: Seq<OutputInfo>, name: Seq<char>, i: int)
    requires
        outputs_unique(s),
        0 <= i < s.len(),
        s[i].name@ == name,
    ensures
        has_output(s, name),
        output_index(s, name) == i,
{
    assert(has_output(s, name));
    let j = output_index(s, name);
    if j != i {
        assert(s[i].name@ != s[j].name@);
    }
}

/// Replacing output `i` by a descriptor with the same name changes the
/// registry at that name and at no other.
proof fn lemma_output_update(s: Seq<OutputInfo>, i: int, e: OutputInfo, n: Seq<char>)
    requires
        outputs_unique(s),
        0 <= i < s.len(),
        e.name@ == s[i].name@,
    ensures
        outputs_unique(s.update(i, e)),
        has_output(s.update(i, e), n) == has_output(s, n),
        has_output(s, n) ==> output_for(s.update(i, e), n) == (if n == e.name@ {
            e
        } else {
            output_for(s, n)
        }),
{
    let s2 = s.update(i, e);
    assert forall|k: int| 0 <= k < s.len() implies s2[k].name@ == s[k].name@ by {}
    if has_output(s, n) {
        let w = output_index(s, n);
        lemma_output_index_is(s, n, w);
        assert(s2[w].name@ == n);
        lemma_output_index_is(s2, n, w);
        if n == e.name@ {
            lemma_output_index_is(s, n, i);
        }
    }
    if has_output(s2, n) {
        let w = output_index(s2, n);
        assert(s[w].name@ == n);
        assert(has_output(s, n));
    }
}

/// Appending an output under a fresh name adds exactly that name.
proof fn lemma_output_push(s: Seq<OutputInfo>, e: OutputInfo, n: Seq<char>)
    requires
        outputs_unique(s),
        !has_output(s, e.name@),
    ensures
        outputs_unique(s.push(e)),
        has_output(s.push(e), n) == (has_output(s, n) || n == e.name@),
        has_output(s.push(e), n) ==> output_for(s.push(e), n) == (if n == e.name@ {
            e
        } else {
            output_for(s, n)
        }),
{
    let s2 = s.push(e);
    assert forall|k: int| 0 <= k < s.len() implies s2[k] == s[k] by {}
    assert(s2[s.len() as int].name@ == e.name@);
    if n == e.name@ {
        lemma_output_index_is(s2, n, s.len() as int);
    } else {
        if has_output(s, n) {
            let w = output_index(s, n);
            lemma_output_index_is(s, n, w);
            lemma_output_index_is(s2, n, w);
        } else {
            if has_output(s2, n) {
                let w = output_index(s2, n);
                assert(w == s.len() as int || s[w].name@ == n);
                assert(false);
            }
        }
    }
}

/// With unique outputs, the session found at `i` is the one
/// `session_index` denotes.
proof fn lemma_session_index_is(s: Seq<CaptureSession>, name: Seq<char>, i: int)
    requires
        sessions_unique(s),
        0 <= i < s.len(),
        s[i].output@ == name,
    ensures
        has_session(s, name),
        session_index(s, name) == i,
{
    assert(has_session(s, name));
    let j = session_index(s, name);
    if j != i {
        assert(s[i].output@ != s[j].output@);
    }
}

/// Replacing session `i` by a session for the same output changes the
/// phase tracked for that output and for no other.
proof fn lemma_session_update(s: Seq<CaptureSession>, i: int, e: CaptureSession, n: Seq<char>)
    requires
        sessions_unique(s),
        0 <= i < s.len(),
        e.output@ == s[i].output@,
    ensures
        sessions_unique(s.update(i, e)),
        has_session(s.update(i, e), n) == has_session(s, n),
        phase_for(s.update(i, e), n) == (if n == e.output@ && has_session(s, n) {
            Some(e.phase())
        } else {
            phase_for(s, n)
        }),
{
    let s2 = s.update(i, e);
    assert forall|k: int| 0 <= k < s.len() implies s2[k].output@ == s[k].output@ by {}
    if has_session(s, n) {
        let w = session_index(s, n);
        lemma_session_index_is(s, n, w);
        assert(s2[w].output@ == n);
        lemma_session_index_is(s2, n, w);
        if n == e.output@ {
            lemma_session_index_is(s, n, i);
        }
    }
    if has_session(s2, n) {
        let w = session_index(s2, n);
        assert(s[w].output@ == n);
        assert(has_session(s, n));
    }
}

/// Appending a session for an untracked output adds exactly that name.
proof fn lemma_session_push(s: Seq<CaptureSession>, e: CaptureSession, n: Seq<char>)
    requires
        sessions_unique(s),
        !has_session(s, e.output@),
    ensures
        sessions_unique(s.push(e)),
        has_session(s.push(e), n) == (has_session(s, n) || n == e.output@),
        phase_for(s.push(e), n) == (if n == e.output@ {
            Some(e.phase())
        } else {
            phase_for(s, n)
        }),
{
    let s2 = s.push(e);
    assert forall|k: int| 0 <= k < s.len() implies s2[k] == s[k] by {}
    assert(s2[s.len() as int].output@ == e.output@);
    if n == e.output@ {
        lemma_session_index_is(s2, n, s.len() as int);
    } else {
        if has_session(s, n) {
            let w = session_index(s, n);
            lemma_session_index_is(s, n, w);
            lemma_session_index_is(s2, n, w);
        } else {
            if has_session(s2, n) {
                let w = session_index(s2, n);
                assert(w == s.len() as int || s[w].output@ == n);
                assert(false);
            }
        }
    }
}

/// Removing session `i` forgets exactly that output's session.
proof fn lemma_session_remove(s: Seq<CaptureSession>, i: int, n: Seq<char>)
    requires
        sessions_unique(s),
        0 <= i < s.len(),
    ensures
        sessions_unique(s.remove(i)),
        has_session(s.remove(i), n) == (has_session(s, n) && n != s[i].output@),
        phase_for(s.remove(i), n) == (if n == s[i].output@ {
            None::<SessionPhase>
        } else {
            phase_for(s, n)
        }),
{
    let s2 = s.remove(i);
    assert forall|k: int| 0 <= k < s2.len() implies s2[k] == (if k < i {
        s[k]
    } else {
        s[k + 1]
    }) by {}
    if has_session(s2, n) {
        let w = session_index(s2, n);
        if w < i {
            assert(s[w].output@ == n);
        } else {
            assert(s[w + 1].output@ == n);
        }
        assert(has_session(s, n));
    }
    if has_session(s, n) && n != s[i].output@ {
        let w = session_index(s, n);
        lemma_session_index_is(s, n, w);
        assert(w != i);
        if w < i {
            assert(s2[w].output@ == n);
            lemma_session_index_is(s2, n, w);
        } else {
            assert(s2[w - 1].output@ == n);
            lemma_session_index_is(s2, n, w - 1);
        }
    }
}

impl ProtocolEvent {
    /// An advertised output must describe a buffer the machine can hold.
    pub open spec fn wf(self) -> bool {
        match self {
            ProtocolEvent::OutputAdded(info) => info.wf(),
            _ => true,
        }
    }
}

impl NiriScreencopyClient {
    /// Registry and session names are unique, sessions are in exactly one
    /// phase, outputs fit the machine, and bound versions are in range.
    pub open spec fn wf(self) -> bool {
        outputs_unique(self.outputs@) && (forall|i: int|
            0 <= i < self.outputs@.len() ==> self.outputs@[i].wf()) && sessions_unique(
            self.sessions@,
        ) && (forall|i: int| 0 <= i < self.sessions@.len() ==> self.sessions@[i].wf()) && (
        self.connected ==> 1 <= self.screencopy_version <= 3 && self.shm_version == 1)
    }

    /// A disconnected client with nothing tracked.
    pub fn new() -> (r: NiriScreencopyClient)
        ensures
            r.wf(),
            !r.connected,
            r.outputs@ == Seq::<OutputInfo>::empty(),
            r.sessions@ == Seq::<CaptureSession>::empty(),
    {
        NiriScreencopyClient {
            connected: false,
            screencopy_version: 0,
            shm_version: 0,
            outputs: Vec::new(),
            sessions: Vec::new(),
        }
    }

    /// The screencopy-manager version to bind against an advertised
    /// version: the highest mutually supported of 1 through 3, or nothing
    /// when the ranges do not meet.
    pub open spec fn screencopy_bind_spec(advertised: u32) -> Option<u32> {
        if advertised >= 1 {
            if advertised < 3 {
                Some(advertised)
            } else {
                Some(3u32)
            }
        } else {
            None
        }
    }

    /// The shared-memory-pool version to bind: always 1 when the
    /// capability exists at all.
    pub open spec fn shm_bind_spec(advertised: u32) -> Option<u32> {
        if advertised >= 1 {
            Some(1u32)
        } else {
            None
        }
    }

    /// Picks the screencopy-manager version to bind.
    pub fn negotiate_screencopy_version(advertised: u32) -> (r: Option<u32>)
        ensures
            r == Self::screencopy_bind_spec(advertised),
    {
        if advertised == 0 {
            None
        } else if advertised < 3 {
            Some(advertised)
        } else {
            Some(3)
        }
    }

    /// Picks the shared-memory-pool version to bind.
    pub fn negotiate_shm_version(advertised: u32) -> (r: Option<u32>)
        ensures
            r == Self::shm_bind_spec(advertised),
    {
        if advertised == 0 {
            None
        } else {
            Some(1)
        }
    }

    /// Records the outcome of capability binding.  Succeeds exactly when
    /// both capabilities are advertised at version 1 or above; the
    /// screencopy manager is checked first.  On failure the client stays
    /// disconnected.
    pub fn complete_connection(&mut self, screencopy_advertised: u32, shm_advertised: u32) -> (r:
        Result<(), CaptureError>)
        requires
            old(self).wf(),
        ensures
            final(self).wf(),
            final(self).outputs@ == old(self).outputs@,
            final(self).sessions@ == old(self).sessions@,
            r is Ok <==> (screencopy_advertised >= 1 && shm_advertised >= 1),
            screencopy_advertised >= 1 && shm_advertised >= 1 ==> final(self).connected && Some(
                final(self).screencopy_version,
            ) == Self::screencopy_bind_spec(screencopy_advertised) && Some(
                final(self).shm_version,
            ) == Self::shm_bind_spec(shm_advertised),
            screencopy_advertised == 0 ==> !final(self).connected && (r matches Err(
                CaptureError::Protocol(m),
            ) && m@ == "screencopy manager capability unavailable"@),
            screencopy_advertised >= 1 && shm_advertised == 0 ==> !final(self).connected && (
            r matches Err(CaptureError::Protocol(m)) && m@ == "wl_shm capability unavailable"@),
    {
        let sc = match Self::negotiate_screencopy_version(screencopy_advertised) {
            Some(v) => v,
            None => {
                self.connected = false;
                return Err(
                    CaptureError::Protocol("screencopy manager capability unavailable".to_owned()),
                );
            },
        };
        let shm = match Self::negotiate_shm_version(shm_advertised) {
            Some(v) => v,
            None => {
                self.connected = false;
                return Err(CaptureError::Protocol("wl_shm capability unavailable".to_owned()));
            },
        };
        self.screencopy_version = sc;
        self.shm_version = shm;
        self.connected = true;
        Ok(())
    }

    /// Whether both required capabilities were bound.
    pub fn is_connected(&self) -> (r: bool)
        ensures
            r == self.connected,
    {
        self.connected
    }

    /// The index of the registered output named `name`, when one exists.
    fn find_output(&self, name: &str) -> (r: Option<usize>)
        requires
            self.wf(),
        ensures
            match r {
                Some(i) => i < self.outputs@.len() && self.outputs@[i as int].name@ == name@,
                None => !has_output(self.outputs@, name@),
            },
    {
        let key: String = name.to_owned();
        let n = self.outputs.len();
        let mut i: usize = 0;
        while i < n
            invariant
                n == self.outputs@.len(),
                0 <= i <= n,
                key@ == name@,
                forall|j: int| 0 <= j < i ==> self.outputs@[j].name@ != name@,
            decreases n - i,
        {
            if self.outputs[i].name == key {
                return Some(i);
            }
            i += 1;
        }
        None
    }

    /// The index of the session tracked for `name`, when one exists.
    fn find_session(&self, name: &str) -> (r: Option<usize>)
        requires
            self.wf(),
        ensures
            match r {
                Some(i) => i < self.sessions@.len() && self.sessions@[i as int].output@ == name@,
                None => !has_session(self.sessions@, name@),
            },
    {
        let key: String = name.to_owned();
        let n = self.sessions.len();
        let mut i: usize = 0;
        while i < n
            invariant
                n == self.sessions@.len(),
                0 <= i <= n,
                key@ == name@,
                forall|j: int| 0 <= j < i ==> self.sessions@[j].output@ != name@,
            decreases n - i,
        {
            if self.sessions[i].output == key {
                return Some(i);
            }
            i += 1;
        }
        None
    }

    /// Registers an output, replacing any previous descriptor of the same
    /// name wholesale; no other registry entry and no session moves.
    pub fn register_output(&mut self, info: OutputInfo)
        requires
            old(self).wf(),
            info.wf(),
        ensures
            final(self).wf(),
            final(self).connected == old(self).connected,
            final(self).screencopy_version == old(self).screencopy_version,
            final(self).shm_version == old(self).shm_version,
            final(self).sessions@ == old(self).sessions@,
            forall|n: Seq<char>|
                #![auto]
                has_output(final(self).outputs@, n) == (has_output(old(self).outputs@, n) || n
                    == info.name@),
            forall|n: Seq<char>|
                #![auto]
                has_output(final(self).outputs@, n) ==> output_for(final(self).outputs@, n) == (
                if n == info.name@ {
                    info
                } else {
                    output_for(old(self).outputs@, n)
                }),
    {
        let ghost s0 = self.outputs@;
        match self.find_output(info.name.as_str()) {
            Some(i) => {
                proof {
                    lemma_output_index_is(s0, info.name@, i as int);
                }
                self.outputs.remove(i);
                self.outputs.insert(i, info);
                proof {
                    let s2 = self.outputs@;
                    assert(s2 =~= s0.update(i as int, s2[i as int]));
                    assert forall|n: Seq<char>| true implies {
                        &&& outputs_unique(s2)
                        &&& has_output(s2, n) == (has_output(s0, n) || n == s2[i as int].name@)
                        &&& (has_output(s2, n) ==> output_for(s2, n) == (if n
                            == s2[i as int].name@ {
                            s2[i as int]
                        } else {
                            output_for(s0, n)
                        }))
                    } by {
                        lemma_output_update(s0, i as int, s2[i as int], n);
                        if n == s2[i as int].name@ {
                            lemma_output_index_is(s0, n, i as int);
                        }
                    }
                }
            },
            None => {
                proof {
                    assert forall|n: Seq<char>| true implies {
                        &&& outputs_unique(s0.push(info))
                        &&& has_output(s0.push(info), n) == (has_output(s0, n) || n == info.name@)
                        &&& (has_output(s0.push(info), n) ==> output_for(s0.push(info), n) == (
                        if n == info.name@ {
                            info
                        } else {
                            output_for(s0, n)
                        }))
                    } by {
                        lemma_output_push(s0, info, n);
                    }
                }
                self.outputs.push(info);
            },
        }
    }

    /// A copy of the current output registry.
    pub fn get_outputs(&self) -> (r: Vec<OutputInfo>)
        requires
            self.wf(),
        ensures
            r@ == self.outputs@,
    {
        let n = self.outputs.len();
        let mut r: Vec<OutputInfo> = Vec::new();
        let mut i: usize = 0;
        while i < n
            invariant
                n == self.outputs@.len(),
                0 <= i <= n,
                r@.len() == i,
                forall|j: int| 0 <= j < i ==> r@[j] == self.outputs@[j],
            decreases n - i,
        {
            let e = &self.outputs[i];
            r.push(
                OutputInfo {
                    name: e.name.clone(),
                    width: e.width,
                    height: e.height,
                    refresh_rate: e.refresh_rate,
                    scale_millis: e.scale_millis,
                },
            );
            i += 1;
        }
        proof {
            assert(r@ =~= self.outputs@);
        }
        r
    }

    /// Allocates the zero-filled shared-memory destination buffer for one
    /// capture of `info`: row pitch `width * 4`, the documented XRGB
    /// fourcc, and one row per line of the mode.
    pub fn create_shm_buffer(&self, info: &OutputInfo) -> (r: Result<CaptureBuffer, CaptureError>)
        requires
            info.wf(),
        ensures
            r matches Ok(b) && (b matches CaptureBuffer::Shm {
                data,
                stride,
                width,
                height,
                format,
            } && width == info.width && height == info.height && stride == info.width * 4
                && format == DRM_FORMAT_XRGB8888 && data@.len() == info.width * 4 * info.height && (
            forall|i: int| 0 <= i < data@.len() ==> data@[i] == 0u8)),
    {
        let stride: u32 = info.width * 4;
        let size: usize = (stride as u64 * info.height as u64) as usize;
        let data: Vec<u8> = vec![0u8; size];
        Ok(
            CaptureBuffer::Shm {
                data,
                stride,
                width: info.width,
                height: info.height,
                format: DRM_FORMAT_XRGB8888,
            },
        )
    }

    /// Issues a one-shot capture request for the named output.
    ///
    /// Fails with a protocol error when the client never bound the
    /// screencopy manager, and with `OutputNotFound` when the name is not
    /// registered; in both cases nothing moves.  Otherwise it returns the
    /// freshly allocated destination buffer and tracks a pending session
    /// for the output, overwriting any session already tracked for it.
    pub fn capture_output(&mut self, output_name: &str) -> (r: Result<CaptureBuffer, CaptureError>)
        requires
            old(self).wf(),
        ensures
            final(self).wf(),
            final(self).connected == old(self).connected,
            final(self).screencopy_version == old(self).screencopy_version,
            final(self).shm_version == old(self).shm_version,
            final(self).outputs@ == old(self).outputs@,
            !old(self).connected ==> final(self).sessions@ == old(self).sessions@ && (r matches Err(
                CaptureError::Protocol(m),
            ) && m@ == "No screencopy manager"@),
            old(self).connected && !has_output(old(self).outputs@, output_name@)
                ==> final(self).sessions@ == old(self).sessions@ && (r matches Err(
                CaptureError::OutputNotFound(m),
            ) && m@ == output_name@),
            old(self).connected && has_output(old(self).outputs@, output_name@) ==> {
                let info = output_for(old(self).outputs@, output_name@);
                &&& (r matches Ok(b) && (b matches CaptureBuffer::Shm {
                    data,
                    stride,
                    width,
                    height,
                    format,
                } && width == info.width && height == info.height && stride == info.width * 4
                    && format == DRM_FORMAT_XRGB8888 && data@.len() == info.width * 4 * info.height
                    && (forall|i: int| 0 <= i < data@.len() ==> data@[i] == 0u8)))
                &&& forall|n: Seq<char>|
                    #![auto]
                    has_session(final(self).sessions@, n) == (has_session(old(self).sessions@, n)
                        || n == output_name@)
                &&& forall|n: Seq<char>|
                    #![auto]
                    phase_for(final(self).sessions@, n) == (if n == output_name@ {
                        Some(SessionPhase::Pending)
                    } else {
                        phase_for(old(self).sessions@, n)
                    })
            },
    {
        if !self.connected {
            return Err(CaptureError::Protocol("No screencopy manager".to_owned()));
        }
        let idx = match self.find_output(output_name) {
            Some(i) => i,
            None => {
                return Err(CaptureError::OutputNotFound(output_name.to_owned()));
            },
        };
        proof {
            lemma_output_index_is(self.outputs@, output_name@, idx as int);
        }
        let info = OutputInfo {
            name: self.outputs[idx].name.clone(),
            width: self.outputs[idx].width,
            height: self.outputs[idx].height,
            refresh_rate: self.outputs[idx].refresh_rate,
            scale_millis: self.outputs[idx].scale_millis,
        };
        let session = CaptureSession { output: output_name.to_owned(), ready: false, failed: false };
        let ghost q0 = self.sessions@;
        match self.find_session(output_name) {
            Some(i) => {
                proof {
                    lemma_session_index_is(q0, output_name@, i as int);
                }
                self.sessions.remove(i);
                self.sessions.insert(i, session);
                proof {
                    let q2 = self.sessions@;
                    assert(q2 =~= q0.update(i as int, q2[i as int]));
                    assert forall|n: Seq<char>| true implies {
                        &&& sessions_unique(q2)
                        &&& has_session(q2, n) == (has_session(q0, n) || n == output_name@)
                        &&& phase_for(q2, n) == (if n == output_name@ {
                            Some(SessionPhase::Pending)
                        } else {
                            phase_for(q0, n)
                        })
                    } by {
                        lemma_session_update(q0, i as int, q2[i as int], n);
                        if n == output_name@ {
                            lemma_session_index_is(q0, n, i as int);
                        }
                    }
                }
            },
            None => {
                proof {
                    assert forall|n: Seq<char>| true implies {
                        &&& sessions_unique(q0.push(session))
                        &&& has_session(q0.push(session), n) == (has_session(q0, n) || n
                            == output_name@)
                        &&& phase_for(q0.push(session), n) == (if n == output_name@ {
                            Some(SessionPhase::Pending)
                        } else {
                            phase_for(q0, n)
                        })
                    } by {
                        lemma_session_push(q0, session, n);
                    }
                }
                self.sessions.push(session);
            },
        }
        self.create_shm_buffer(&info)
    }

    /// Applies one protocol event to the tracked state.
    ///
    /// An advertised output is registered (replacing its previous
    /// descriptor); a frame-ready or frame-failed signal moves the
    /// pending session of its output to the matching terminal state and
    /// is ignored for outputs without a pending session.
    pub fn handle_event(&mut self, event: ProtocolEvent)
        requires
            old(self).wf(),
            event.wf(),
        ensures
            final(self).wf(),
            final(self).connected == old(self).connected,
            final(self).screencopy_version == old(self).screencopy_version,
            final(self).shm_version == old(self).shm_version,
            match event {
                ProtocolEvent::OutputAdded(info) => {
                    &&& final(self).sessions@ == old(self).sessions@
                    &&& forall|n: Seq<char>|
                        #![auto]
                        has_output(final(self).outputs@, n) == (has_output(old(self).outputs@, n)
                            || n == info.name@)
                    &&& forall|n: Seq<char>|
                        #![auto]
                        has_output(final(self).outputs@, n) ==> output_for(
                            final(self).outputs@,
                            n,
                        ) == (if n == info.name@ {
                            info
                        } else {
                            output_for(old(self).outputs@, n)
                        })
                },
                ProtocolEvent::FrameReady(name) => {
                    &&& final(self).outputs@ == old(self).outputs@
                    &&& forall|n: Seq<char>|
                        #![auto]
                        phase_for(final(self).sessions@, n) == (if n == name@ && phase_for(
                            old(self).sessions@,
                            n,
                        ) == Some(SessionPhase::Pending) {
                            Some(SessionPhase::Ready)
                        } else {
                            phase_for(old(self).sessions@, n)
                        })
                },
                ProtocolEvent::FrameFailed(name) => {
                    &&& final(self).outputs@ == old(self).outputs@
                    &&& forall|n: Seq<char>|
                        #![auto]
                        phase_for(final(self).sessions@, n) == (if n == name@ && phase_for(
                            old(self).sessions@,
                            n,
                        ) == Some(SessionPhase::Pending) {
                            Some(SessionPhase::Failed)
                        } else {
                            phase_for(old(self).sessions@, n)
                        })
                },
            },
    {
        match event {
            ProtocolEvent::OutputAdded(info) => {
                self.register_output(info);
            },
            ProtocolEvent::FrameReady(name) => {
                self.resolve_session(name.as_str(), true);
            },
            ProtocolEvent::FrameFailed(name) => {
                self.resolve_session(name.as_str(), false);
            },
        }
    }

    /// Moves the pending session of `name`, if any, to ready or failed.
    fn resolve_session(&mut self, name: &str, success: bool)
        requires
            old(self).wf(),
        ensures
            final(self).wf(),
            final(self).connected == old(self).connected,
            final(self).screencopy_version == old(self).screencopy_version,
            final(self).shm_version == old(self).shm_version,
            final(self).outputs@ == old(self).outputs@,
            forall|n: Seq<char>|
                #![auto]
                phase_for(final(self).sessions@, n) == (if n == name@ && phase_for(
                    old(self).sessions@,
                    n,
                ) == Some(SessionPhase::Pending) {
                    if success {
                        Some(SessionPhase::Ready)
                    } else {
                        Some(SessionPhase::Failed)
                    }
                } else {
                    phase_for(old(self).sessions@, n)
                }),
    {
        let ghost q0 = self.sessions@;
        let idx = match self.find_session(name) {
            Some(i) => i,
            None => {
                return ;
            },
        };
        proof {
            lemma_session_index_is(q0, name@, idx as int);
        }
        let e = &self.sessions[idx];
        if e.ready || e.failed {
            proof {
                assert forall|n: Seq<char>| true implies phase_for(q0, n) != Some(
                    SessionPhase::Pending,
                ) || n != name@ by {
                    if n == name@ {
                        assert(phase_for(q0, n) == Some(q0[idx as int].phase()));
                    }
                }
            }
            return ;
        }
        let session = CaptureSession {
            output: self.sessions[idx].output.clone(),
            ready: success,
            failed: !success,
        };
        self.sessions.remove(idx);
        self.sessions.insert(idx, session);
        proof {
            let q2 = self.sessions@;
            assert(q2 =~= q0.update(idx as int, q2[idx as int]));
            assert forall|n: Seq<char>| true implies {
                &&& sessions_unique(q2)
                &&& phase_for(q2, n) == (if n == name@ && phase_for(q0, n) == Some(
                    SessionPhase::Pending,
                ) {
                    if success {
                        Some(SessionPhase::Ready)
                    } else {
                        Some(SessionPhase::Failed)
                    }
                } else {
                    phase_for(q0, n)
                })
            } by {
                lemma_session_update(q0, idx as int, q2[idx as int], n);
                if n == name@ {
                    lemma_session_index_is(q0, n, idx as int);
                }
            }
        }
    }

    /// The phase of the session tracked for `name`, when one exists.
    pub fn session_phase(&self, name: &str) -> (r: Option<SessionPhase>)
        requires
            self.wf(),
        ensures
            r == phase_for(self.sessions@, name@),
    {
        match self.find_session(name) {
            Some(i) => {
                proof {
                    lemma_session_index_is(self.sessions@, name@, i as int);
                }
                let e = &self.sessions[i];
                if e.ready {
                    Some(SessionPhase::Ready)
                } else if e.failed {
                    Some(SessionPhase::Failed)
                } else {
                    Some(SessionPhase::Pending)
                }
            },
            None => None,
        }
    }

    /// Forgets the session tracked for `name`, once its result was
    /// consumed or its request failed; nothing else moves.
    pub fn clear_session(&mut self, name: &str)
        requires
            old(self).wf(),
        ensures
            final(self).wf(),
            final(self).connected == old(self).connected,
            final(self).screencopy_version == old(self).screencopy_version,
            final(self).shm_version == old(self).shm_version,
            final(self).outputs@ == old(self).outputs@,
            forall|n: Seq<char>|
                #![auto]
                phase_for(final(self).sessions@, n) == (if n == name@ {
                    None::<SessionPhase>
                } else {
                    phase_for(old(self).sessions@, n)
                }),
    {
        let ghost q0 = self.sessions@;
        match self.find_session(name) {
            Some(i) => {
                proof {
                    lemma_session_index_is(q0, name@, i as int);
                }
                self.sessions.remove(i);
                proof {
                    assert forall|n: Seq<char>| true implies {
                        &&& sessions_unique(q0.remove(i as int))
                        &&& phase_for(q0.remove(i as int), n) == (if n == name@ {
                            None::<SessionPhase>
                        } else {
                            phase_for(q0, n)
                        })
                    } by {
                        lemma_session_remove(q0, i as int, n);
                    }
                }
            },
            None => {
            },
        }
    }
}

} // verus!
