pub mod discovery;
pub mod metadata;

use vstd::prelude::*;

verus! {

/// Unified failure taxonomy for the container-access layer.
///
/// `ChdrCError` carries an opaque status code from the native engine; the
/// remaining variants are this library's own semantic failures.
#[derive(Debug, Clone, Copy, PartialEq, Eq, Structural)]
pub enum ChdError {
    ChdrCError(u32),
    FileDoesntExist,
    IncompatiblePathEncoding,
    HeaderNull,
    BufferTooSmall,
    MetadataTextParseError,
    NoCdromMetadata,
}

/// Snapshot of the container header fields this library reads; the engine's
/// remaining geometry fields are opaque pass-through and stay with the caller.
#[derive(Debug, Clone, Copy, PartialEq, Eq, Structural)]
pub struct ChdHeader {
    pub hunkbytes: u32,
    pub totalhunks: u32,
}

/// Outcome of one engine call that either succeeds or reports an opaque
/// status code.
#[derive(Debug, Clone, Copy, PartialEq, Eq, Structural)]
pub enum EngineStatus {
    Success,
    Failure(u32),
}

/// Map an engine status onto the error model: success passes, any other
/// status surfaces as `ChdrCError` carrying that code, never interpreted
/// further.
pub fn engine_result(status: EngineStatus) -> (r: Result<(), ChdError>)
    ensures
        r == (match status {
            EngineStatus::Success => Result::<(), ChdError>::Ok(()),
            EngineStatus::Failure(code) => Result::<(), ChdError>::Err(ChdError::ChdrCError(code)),
        }),
{
    match status {
        EngineStatus::Success => Result::Ok(()),
        EngineStatus::Failure(code) => Result::Err(ChdError::ChdrCError(code)),
    }
}

/// What `Open` must do once the engine has acquired the resource and header
/// retrieval has been attempted.
#[derive(Debug)]
pub enum OpenOutcome {
    /// Keep the acquired resource: the handle is live with this header.
    Ready(ChdFile),
    /// Release the acquired resource exactly once, then fail with the error.
    ReleaseAndFail(ChdError),
}

/// A live container handle's verified core: the cached header snapshot.
/// The opaque native resource itself is owned by the caller that drives the
/// engine, alongside this value, for the same lifetime.
#[derive(Debug)]
pub struct ChdFile {
    pub header: ChdHeader,
}

impl ChdFile {
    /// Decide `Open`'s fate before any engine call: a missing file is
    /// rejected as `FileDoesntExist` and a path the engine's encoding cannot
    /// carry as `IncompatiblePathEncoding`; only otherwise may the engine's
    /// open operation be attempted.
    pub fn open_precheck(path_exists: bool, path_is_utf8: bool) -> (r: Result<(), ChdError>)
        ensures
            r == (if !path_exists {
                Result::<(), ChdError>::Err(ChdError::FileDoesntExist)
            } else if !path_is_utf8 {
                Result::<(), ChdError>::Err(ChdError::IncompatiblePathEncoding)
            } else {
                Result::<(), ChdError>::Ok(())
            }),
    {
        if !path_exists {
            Result::Err(ChdError::FileDoesntExist)
        } else if !path_is_utf8 {
            Result::Err(ChdError::IncompatiblePathEncoding)
        } else {
            Result::Ok(())
        }
    }

    /// Decide `Open`'s fate after a successful engine open: a missing header
    /// makes the handle unusable, so the just-acquired resource must be
    /// released — the one path where acquisition and release both occur
    /// within `Open` — and `HeaderNull` returned; otherwise the handle goes
    /// live caching the header.
    pub fn open_on_header(header: Option<ChdHeader>) -> (r: OpenOutcome)
        ensures
            r == (match header {
                Option::Some(h) => OpenOutcome::Ready(ChdFile { header: h }),
                Option::None => OpenOutcome::ReleaseAndFail(ChdError::HeaderNull),
            }),
    {
        match header {
            Option::Some(h) => OpenOutcome::Ready(ChdFile { header: h }),
            Option::None => OpenOutcome::ReleaseAndFail(ChdError::HeaderNull),
        }
    }

    /// Cached per-hunk byte size; pure accessor.
    pub fn hunk_len(&self) -> (r: u32)
        ensures
            r == self.header.hunkbytes,
    {
        self.header.hunkbytes
    }

    /// Cached total hunk count; pure accessor.
    pub fn num_hunks(&self) -> (r: u32)
        ensures
            r == self.header.totalhunks,
    {
        self.header.totalhunks
    }

    /// Guard for `ReadHunk`: a destination smaller than one hunk is rejected
    /// as `BufferTooSmall`, and only on `Ok` may the engine's read operation
    /// be invoked — so a decompressor that trusts the buffer's capacity can
    /// never be handed a short one.
    pub fn read_hunk_precheck(&self, buffer: &[u8]) -> (r: Result<(), ChdError>)
        ensures
            r == (if buffer@.len() < self.header.hunkbytes {
                Result::<(), ChdError>::Err(ChdError::BufferTooSmall)
            } else {
                Result::<(), ChdError>::Ok(())
            }),
    {
        if buffer.len() < self.hunk_len() as usize {
            Result::Err(ChdError::BufferTooSmall)
        } else {
            Result::Ok(())
        }
    }
}

} // verus!
