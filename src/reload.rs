//! Hot reload of the running cartridge: when to try, and what a success or a
//! failure does to the live module handle.
use vstd::prelude::*;

verus! {

/// Why a new cartridge was not installed.
#[derive(Clone, Copy, Debug, PartialEq, Eq, Structural)]
pub enum ReloadError {
    /// The new binary could not be compiled, instantiated or bound.
    Load,
    /// Its init entry point trapped.
    Init,
}

/// The live module handle together with the reload bookkeeping. `H` is the
/// whole binding to one cartridge instance; it is only ever replaced whole.
pub struct Reloader<H> {
    pub current: H,
    /// Modification time of the binary that `current` was loaded from.
    pub loaded_mtime: u64,
    /// Modification time of the binary whose reload failed since the last
    /// successful load, if any; that binary is not tried again.
    pub failed_mtime: Option<u64>,
    /// Successful reloads so far (wrapping).
    pub reload_count: u32,
}

impl<H> Reloader<H> {
    /// Starts with the handle loaded at startup from a binary of time `mtime`.
    pub fn new(handle: H, mtime: u64) -> (r: Reloader<H>)
        ensures
            r.current == handle,
            r.loaded_mtime == mtime,
            r.failed_mtime is None,
            r.reload_count == 0,
    {
        Reloader { current: handle, loaded_mtime: mtime, failed_mtime: None, reload_count: 0 }
    }

    /// A reload is due when the binary's modification time (if it could be
    /// read) is newer than that of the running binary, unless a reload of a
    /// binary with exactly that time already failed: a failed binary is
    /// retried only once the file changes again.
    pub fn should_reload(&self, mtime: Option<u64>) -> (r: bool)
        ensures
            r == (mtime is Some && mtime->Some_0 > self.loaded_mtime && self.failed_mtime != mtime),
    {
        match mtime {
            Some(t) => t > self.loaded_mtime && !matches!(self.failed_mtime, Some(f) if f == t),
            None => false,
        }
    }

    /// Installs the outcome of a reload tried on the binary of time `mtime`.
    /// On success the new handle replaces the old one whole. On failure the
    /// old handle and its load time stay exactly as they were, the failure
    /// is handed back, and the failed time is remembered.
    pub fn finish_reload(&mut self, mtime: u64, outcome: Result<H, ReloadError>) -> (r: Option<ReloadError>)
        requires
            mtime > old(self).loaded_mtime,
        ensures
            match outcome {
                Ok(h) => {
                    &&& r is None
                    &&& final(self).current == h
                    &&& final(self).loaded_mtime == mtime
                    &&& final(self).failed_mtime is None
                    &&& final(self).reload_count == (old(self).reload_count as int + 1) % 0x1_0000_0000
                },
                Err(e) => {
                    &&& r == Some(e)
                    &&& final(self).current == old(self).current
                    &&& final(self).loaded_mtime == old(self).loaded_mtime
                    &&& final(self).failed_mtime == Some(mtime)
                    &&& final(self).reload_count == old(self).reload_count
                },
            },
    {
        match outcome {
            Ok(h) => {
                self.current = h;
                self.loaded_mtime = mtime;
                self.failed_mtime = None;
                self.reload_count = self.reload_count.wrapping_add(1);
                None
            },
            Err(e) => {
                self.failed_mtime = Some(mtime);
                Some(e)
            },
        }
    }
}

} // verus!
