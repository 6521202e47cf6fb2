//! The cursor of a reader over a download still in progress: where a seek
//! lands, how many bytes a read takes, and what a reader waiting for bytes
//! does next. The buffer itself is shared with the downloading task.

use vstd::prelude::*;

verus! {

/// A seek request, as `std::io::SeekFrom` has it.
#[derive(Debug, Clone, Copy, PartialEq, Eq, Structural)]
pub enum SeekRequest {
    Start(u64),
    End(i64),
    Current(i64),
}

/// Why a seek is refused.
#[derive(Debug, Clone, Copy, PartialEq, Eq, Structural)]
pub enum SeekError {
    /// A seek from the end of a download whose length is unknown.
    NoLength,
    /// A seek before the start.
    Negative,
}

/// The position a seek aims at, as a 64-bit signed offset (an offset from
/// the start above `i64::MAX` wraps, as the cast does).
pub open spec fn seek_aim(pos: SeekRequest, content_length: Option<u64>, position: usize) -> Option<int> {
    match pos {
        SeekRequest::Start(off) => Some(if off <= i64::MAX {
            off as int
        } else {
            off as int - 0x1_0000_0000_0000_0000
        }),
        SeekRequest::End(off) => match content_length {
            Some(len) => Some(
                (if len <= i64::MAX {
                    len as int
                } else {
                    len as int - 0x1_0000_0000_0000_0000
                }) + off,
            ),
            None => None,
        },
        SeekRequest::Current(off) => Some(position as int + off),
    }
}

/// Where a seek lands, before waiting for the bytes: an error for a seek from
/// an unknown end or before the start, the position otherwise.
pub open spec fn spec_seek_target(pos: SeekRequest, content_length: Option<u64>, position: usize) -> Result<
    int,
    SeekError,
> {
    match seek_aim(pos, content_length, position) {
        None => Err(SeekError::NoLength),
        Some(p) => if p < 0 {
            Err(SeekError::Negative)
        } else {
            Ok(p)
        },
    }
}

proof fn lemma_u64_as_i64(x: u64)
    ensures
        (x as i64) as int == (if x <= i64::MAX {
            x as int
        } else {
            x as int - 0x1_0000_0000_0000_0000
        }),
{
    if x > i64::MAX {
        assert((x as i64) as int == x as int - 0x1_0000_0000_0000_0000) by (bit_vector)
            requires
                x > 0x7fff_ffff_ffff_ffffu64,
        ;
    }
}

/// Where a seek lands (see [`spec_seek_target`]), as a buffer position: the
/// target cast to `usize`, which keeps it whole wherever `usize` is 64 bits
/// wide and keeps its low bits where it is narrower. The sum of a signed
/// offset and the length or position must fit in an `i64`.
pub fn seek_target(pos: SeekRequest, content_length: Option<u64>, position: usize) -> (r: Result<usize, SeekError>)
    requires
        seek_aim(pos, content_length, position) matches Some(p) ==> i64::MIN <= p <= i64::MAX,
        position <= i64::MAX,
    ensures
        match r {
            Ok(p) => spec_seek_target(pos, content_length, position) matches Ok(t) && p == t as usize,
            Err(e) => spec_seek_target(pos, content_length, position) == Err::<int, SeekError>(e),
        },
        usize::MAX >= i64::MAX ==> (r matches Ok(p) ==> spec_seek_target(
            pos,
            content_length,
            position,
        ) == Ok::<int, SeekError>(p as int)),
{
    let aim: i64 = match pos {
        SeekRequest::Start(off) => {
            proof {
                lemma_u64_as_i64(off);
            }
            off as i64
        },
        SeekRequest::End(off) => match content_length {
            Some(len) => {
                proof {
                    lemma_u64_as_i64(len);
                }
                (len as i64) + off
            },
            None => return Err(SeekError::NoLength),
        },
        SeekRequest::Current(off) => (position as i64) + off,
    };
    if aim < 0 {
        Err(SeekError::Negative)
    } else {
        Ok(aim as usize)
    }
}

/// How many bytes a read into a buffer of `buf_len` bytes takes, once bytes
/// are there: as many as fit, at most what is buffered past the position.
pub open spec fn spec_read_len(buf_len: usize, data_len: usize, position: usize) -> int {
    let available: int = if data_len >= position {
        data_len - position
    } else {
        0
    };
    if buf_len < available {
        buf_len as int
    } else {
        available
    }
}

/// How many bytes a read takes (see [`spec_read_len`]).
pub fn read_len(buf_len: usize, data_len: usize, position: usize) -> (r: usize)
    ensures
        r == spec_read_len(buf_len, data_len, position),
        r <= buf_len,
        position + r <= data_len || r == 0,
{
    let available = data_len.saturating_sub(position);
    if buf_len < available {
        buf_len
    } else {
        available
    }
}

/// What a reader waiting for bytes does next.
#[derive(Debug, Clone, Copy, PartialEq, Eq, Structural)]
pub enum WaitStep {
    /// Enough bytes are buffered.
    Ready,
    /// The download ended without them; the reader sees the end of the stream.
    Ended,
    /// The download failed; the reader gets its error.
    Failed,
    /// Wait to be woken by the download.
    Wait,
}

/// What a reader waiting for `min_bytes` past `position` does next.
pub open spec fn spec_wait_step(data_len: usize, position: usize, min_bytes: usize, complete: bool, failed: bool) -> WaitStep {
    let available: int = if data_len >= position {
        data_len - position
    } else {
        0
    };
    if available >= min_bytes {
        WaitStep::Ready
    } else if complete {
        if failed {
            WaitStep::Failed
        } else {
            WaitStep::Ended
        }
    } else {
        WaitStep::Wait
    }
}

/// What a reader waiting for bytes does next (see [`spec_wait_step`]).
pub fn wait_step(data_len: usize, position: usize, min_bytes: usize, complete: bool, failed: bool) -> (r: WaitStep)
    ensures
        r == spec_wait_step(data_len, position, min_bytes, complete, failed),
{
    if data_len.saturating_sub(position) >= min_bytes {
        WaitStep::Ready
    } else if complete {
        if failed {
            WaitStep::Failed
        } else {
            WaitStep::Ended
        }
    } else {
        WaitStep::Wait
    }
}

/// How many bytes past the position a forward seek to `target` waits for.
pub fn seek_wait_bytes(target: usize, position: usize) -> (r: usize)
    ensures
        r == (if target >= position {
            target - position
        } else {
            0
        }),
{
    target.saturating_sub(position)
}

/// Download progress: the bytes received and, when known, the total.
pub fn progress(bytes_downloaded: usize, content_length: Option<u64>) -> (r: (usize, Option<usize>))
    ensures
        r.0 == bytes_downloaded,
        r.1 == (match content_length {
            Some(l) => Some(l as usize),
            None => None,
        }),
{
    (
        bytes_downloaded,
        match content_length {
            Some(l) => Some(l as usize),
            None => None,
        },
    )
}

/// Why a streamed download failed.
pub enum HttpStreamError {
    /// The request failed, with what went wrong.
    Request(String),
    /// The download was cancelled.
    Cancelled,
    /// Reading failed, with the error's text.
    Io(String),
}

impl HttpStreamError {
    /// The error as text.
    pub fn message(&self) -> (r: String)
        ensures
            r@ == match *self {
                HttpStreamError::Request(m) => "HTTP request error: "@ + m@,
                HttpStreamError::Cancelled => "Download cancelled"@,
                HttpStreamError::Io(m) => "I/O error: "@ + m@,
            },
    {
        match self {
            HttpStreamError::Request(m) => {
                let mut s = "HTTP request error: ".to_owned();
                s.append(m.as_str());
                s
            },
            HttpStreamError::Cancelled => "Download cancelled".to_owned(),
            HttpStreamError::Io(m) => {
                let mut s = "I/O error: ".to_owned();
                s.append(m.as_str());
                s
            },
        }
    }
}

} // verus!
