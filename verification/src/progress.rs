//! A byte source that counts what passes through it, reports the running
//! position after every non-empty read, and stops with an error as soon as
//! the transfer it serves is cancelled.

use vstd::prelude::*;
use crate::connection::{CancelCheck, ProgressCallback};

verus! {

/// `std::io::Error`, carried as an opaque value: what a failed read gives.
#[verifier::external_type_specification]
#[verifier::external_body]
pub struct ExIoError(std::io::Error);

/// Something bytes are read from, a chunk at a time: `Ok(0)` means the end.
pub trait ByteSource {
    /// How many bytes the next read into a buffer of `len` bytes gives, for
    /// a source that can tell in advance; `None`, the default, for one
    /// whose reads depend on things outside its value (a file, a socket).
    open spec fn next_count(&self, len: nat) -> Option<nat> {
        None
    }

    fn read(&mut self, buf: &mut [u8]) -> (r: std::io::Result<usize>)
        ensures
            old(self).next_count(old(buf)@.len()) matches Some(k) ==> r matches Ok(n) && n == k,
    ;
}

/// `std::io::Error::new(ErrorKind::Interrupted, msg)`: an error of kind
/// `Interrupted` carrying `msg`. Nothing is stated of the value: the error
/// type is opaque here.
#[verifier::external_body]
fn interrupted_error(msg: &str) -> (e: std::io::Error) {
    std::io::Error::new(std::io::ErrorKind::Interrupted, msg)
}

/// Reading from a byte slice copies from its front and moves the slice past
/// what was copied.
impl<'b> ByteSource for &'b [u8] {
    open spec fn next_count(&self, len: nat) -> Option<nat> {
        Some(if self@.len() < len { self@.len() } else { len })
    }

    fn read(&mut self, buf: &mut [u8]) -> (r: std::io::Result<usize>)
        ensures
            ({
                let n = if old(self)@.len() < old(buf)@.len() {
                    old(self)@.len()
                } else {
                    old(buf)@.len()
                };
                &&& r matches Ok(k) && k == n
                &&& final(buf)@ == old(self)@.take(n as int) + old(buf)@.skip(n as int)
                &&& final(self)@ == old(self)@.skip(n as int)
            }),
    {
        let src: &'b [u8] = *self;
        let n: usize = if src.len() < buf.len() {
            src.len()
        } else {
            buf.len()
        };
        let ghost b0 = buf@;
        let mut i: usize = 0;
        while i < n
            invariant
                n <= src@.len(),
                n <= b0.len(),
                i <= n,
                buf@.len() == b0.len(),
                forall|k: int| 0 <= k < i ==> buf@[k] == src@[k],
                forall|k: int| i <= k < b0.len() ==> buf@[k] == b0[k],
            decreases n - i,
        {
            buf[i] = src[i];
            i += 1;
        }
        let (_head, tail) = src.split_at(n);
        *self = tail;
        assert(buf@ =~= src@.take(n as int) + b0.skip(n as int));
        assert(tail@ =~= src@.skip(n as int));
        Ok(n)
    }
}

/// Wraps a byte source for a transfer. `transferred` starts at the resume
/// offset and is the absolute position reached in the file; `total` is the
/// file's size. The reader keeps, as a ghost record, the progress reports
/// it has made to the callback.
pub struct ProgressReader<'a, R> {
    pub inner: R,
    pub transferred: u64,
    pub total: u64,
    pub callback: Option<&'a dyn ProgressCallback>,
    pub is_cancelled: Option<&'a dyn CancelCheck>,
    pub reports: Ghost<Seq<(u64, u64)>>,
}

/// The position after `n` more bytes: `transferred + n`, saturating at
/// `u64::MAX`.
pub open spec fn advanced(transferred: u64, n: usize) -> u64 {
    if transferred + n <= u64::MAX {
        (transferred + n) as u64
    } else {
        u64::MAX
    }
}

impl<'a, R> ProgressReader<'a, R> {
    /// The `(transferred, total)` reports made to the callback so far.
    pub closed spec fn reports(&self) -> Seq<(u64, u64)> {
        self.reports@
    }

    /// A reader over `inner`, starting at position `transferred` of a file
    /// of `total` bytes, that has reported nothing yet.
    pub fn new(
        inner: R,
        transferred: u64,
        total: u64,
        callback: Option<&'a dyn ProgressCallback>,
        is_cancelled: Option<&'a dyn CancelCheck>,
    ) -> (r: Self)
        ensures
            r.inner == inner,
            r.transferred == transferred,
            r.total == total,
            r.callback == callback,
            r.is_cancelled == is_cancelled,
            r.reports() == Seq::<(u64, u64)>::empty(),
    {
        ProgressReader { inner, transferred, total, callback, is_cancelled, reports: Ghost(Seq::empty()) }
    }
}

impl<'a, R: ByteSource> ProgressReader<'a, R> {
    /// Reads one chunk. A cancelled transfer fails with an `Interrupted`
    /// error before anything is read. Otherwise the inner source is read;
    /// its error is passed on; a non-empty chunk advances the position by
    /// its length (saturating at `u64::MAX`) and is reported as
    /// `(transferred, total)`. With no cancellation check, a source that
    /// can tell how much its next read gives (a byte slice) gives exactly
    /// that.
    pub fn read(&mut self, buf: &mut [u8]) -> (r: std::io::Result<usize>)
        ensures
            final(self).total == old(self).total,
            final(self).callback == old(self).callback,
            final(self).is_cancelled == old(self).is_cancelled,
            r is Err ==> final(self).transferred == old(self).transferred,
            r matches Ok(n) ==> final(self).transferred == advanced(old(self).transferred, n),
            final(self).reports() == (if r matches Ok(n) && n > 0 && old(self).callback is Some {
                old(self).reports().push((final(self).transferred, old(self).total))
            } else {
                old(self).reports()
            }),
            old(self).is_cancelled is None ==> (old(self).inner.next_count(old(buf)@.len()) matches Some(
                k,
            ) ==> r matches Ok(n) && n == k),
    {
        let cancelled = match self.is_cancelled {
            Some(check) => check.is_cancelled(),
            None => false,
        };
        self.read_checked(buf, cancelled)
    }

    /// Reads one chunk once the cancellation check has answered
    /// `cancelled`: a cancelled transfer fails at once, leaving the reader
    /// (its reports included) and the buffer untouched and the inner source
    /// unread; otherwise the inner source is read once and what it gave is
    /// accounted for as `count` does.
    pub fn read_checked(&mut self, buf: &mut [u8], cancelled: bool) -> (r: std::io::Result<usize>)
        ensures
            cancelled ==> r is Err && *final(self) == *old(self) && final(buf)@ == old(buf)@,
            final(self).total == old(self).total,
            final(self).callback == old(self).callback,
            final(self).is_cancelled == old(self).is_cancelled,
            r is Err ==> final(self).transferred == old(self).transferred,
            r matches Ok(n) ==> final(self).transferred == advanced(old(self).transferred, n),
            final(self).reports() == (if r matches Ok(n) && n > 0 && old(self).callback is Some {
                old(self).reports().push((final(self).transferred, old(self).total))
            } else {
                old(self).reports()
            }),
            !cancelled ==> (old(self).inner.next_count(old(buf)@.len()) matches Some(k) ==> r matches Ok(
                n,
            ) && n == k),
    {
        if cancelled {
            return Err(interrupted_error("Transfer cancelled"));
        }
        let got = self.inner.read(buf);
        self.count(got)
    }

    /// Accounts for what one read of the inner source gave, and hands it on
    /// unchanged: an error leaves the position as it was; a chunk of `n`
    /// bytes advances it by `n` (saturating at `u64::MAX`), and a non-empty
    /// one is reported to the callback, when there is one, as
    /// `(transferred, total)`.
    pub fn count(&mut self, got: std::io::Result<usize>) -> (r: std::io::Result<usize>)
        ensures
            r == got,
            final(self).inner == old(self).inner,
            final(self).total == old(self).total,
            final(self).callback == old(self).callback,
            final(self).is_cancelled == old(self).is_cancelled,
            got is Err ==> final(self).transferred == old(self).transferred,
            got matches Ok(n) ==> final(self).transferred == advanced(old(self).transferred, n),
            final(self).reports() == (if got matches Ok(n) && n > 0 && old(self).callback is Some {
                old(self).reports().push((final(self).transferred, old(self).total))
            } else {
                old(self).reports()
            }),
    {
        match got {
            Ok(n) => {
                if n > 0 {
                    self.transferred = self.transferred.saturating_add(n as u64);
                    match self.callback {
                        Some(cb) => {
                            cb.report(self.transferred, self.total);
                            self.reports = Ghost(self.reports@.push((self.transferred, self.total)));
                        },
                        None => {},
                    }
                }
                Ok(n)
            },
            Err(e) => Err(e),
        }
    }
}

} // verus!
