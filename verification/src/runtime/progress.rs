use vstd::prelude::*;

verus! {

/// How far the preparation of a batch of files has come.
#[derive(Debug, Clone, Copy)]
pub struct TransferPreparingPayload {
    pub current: usize,
    pub total: usize,
}

/// Size in bytes of one file chunk.
pub const FILE_CHUNK_SIZE: i64 = 65536;

/// A receiver acknowledges every this many chunks.
pub const FILE_ACK_INTERVAL_CHUNKS: i64 = 7;

/// The bytes of a file that the receiver has acknowledged: the chunks before
/// `next_expected_index` (never more than the file has), limited to the file
/// size; 0 when any input is not positive.
pub open spec fn acknowledged_bytes(file_size: i64, total_chunks: i64, next_expected_index: i64) -> int {
    if file_size <= 0 || total_chunks <= 0 || next_expected_index <= 0 {
        0
    } else {
        let chunks = if next_expected_index < total_chunks {
            next_expected_index
        } else {
            total_chunks
        };
        let bytes = if chunks * FILE_CHUNK_SIZE > i64::MAX {
            i64::MAX as int
        } else {
            chunks * FILE_CHUNK_SIZE
        };
        if bytes < file_size {
            bytes
        } else {
            file_size as int
        }
    }
}

/// The number of file bytes covered by an acknowledgement.
pub fn acknowledged_file_bytes(file_size: i64, total_chunks: i64, next_expected_index: i64) -> (r:
    i64)
    ensures
        r == acknowledged_bytes(file_size, total_chunks, next_expected_index),
        0 <= r <= if file_size > 0 {
            file_size
        } else {
            0
        },
{
    if file_size <= 0 || total_chunks <= 0 || next_expected_index <= 0 {
        return 0;
    }
    let chunks = if next_expected_index < total_chunks {
        next_expected_index
    } else {
        total_chunks
    };
    let acknowledged = if chunks > i64::MAX / FILE_CHUNK_SIZE {
        i64::MAX
    } else {
        chunks * FILE_CHUNK_SIZE
    };
    if acknowledged < file_size {
        acknowledged
    } else {
        file_size
    }
}

/// Whether a receiver that now expects chunk `next_expected_index` sends an
/// acknowledgement: after every `FILE_ACK_INTERVAL_CHUNKS` chunks and once
/// all chunks have arrived.
pub fn should_send_file_ack(next_expected_index: i64, total_chunks: i64) -> (r: bool)
    ensures
        r == (next_expected_index > 0 && ((total_chunks > 0 && next_expected_index >= total_chunks)
            || next_expected_index % FILE_ACK_INTERVAL_CHUNKS == 0)),
{
    if next_expected_index <= 0 {
        return false;
    }
    (total_chunks > 0 && next_expected_index >= total_chunks) || (next_expected_index as u64) % (
    FILE_ACK_INTERVAL_CHUNKS as u64) == 0
}

/// Progress is reported at most this often (in milliseconds) while a
/// transfer runs.
pub const TRANSFER_PROGRESS_INTERVAL_MS: i64 = 500;

/// The sender's record of how far the receiver acknowledged a file.
#[derive(Debug, Clone, Copy, PartialEq, Eq, Structural)]
pub struct OutgoingAckState {
    pub file_size: i64,
    pub total_chunks: i64,
    /// The chunks acknowledged so far.
    pub acknowledged_chunks: i64,
    /// The bytes shown as transferred.
    pub transferred_bytes: i64,
    /// The bytes transferred at the last progress report.
    pub last_reported_bytes: i64,
    /// When progress was last reported.
    pub last_progress_at: i64,
}

/// A progress report: the bytes since the last one, and the milliseconds
/// between them.
#[derive(Debug, Clone, Copy, PartialEq, Eq, Structural)]
pub struct ProgressReport {
    pub delta_bytes: i64,
    pub duration_ms: i64,
}

/// What an acknowledgement moved forward.
#[derive(Debug, Clone, Copy, PartialEq, Eq, Structural)]
pub struct AckProgress {
    /// The bytes now shown as transferred.
    pub transferred_bytes: i64,
    /// Whether the whole file is acknowledged.
    pub finished: bool,
    /// The progress to report, when one is due.
    pub report: Option<ProgressReport>,
}

/// `next` limited to `0..=total`.
pub open spec fn clamped(next: i64, total: i64) -> i64 {
    if next < 0 {
        0
    } else if next > total {
        total
    } else {
        next
    }
}

/// What an acknowledgement that the receiver now expects chunk
/// `next_expected_index` does at `now`: the index (limited to the file's
/// chunks) moves the acknowledged count forward if it is ahead of it; the
/// acknowledged bytes then move the transferred bytes forward if they are
/// ahead of them, with a progress report when the file is complete or the
/// last report is old enough.
pub open spec fn ack_step(s: OutgoingAckState, next_expected_index: i64, now: i64) -> (
    OutgoingAckState,
    Option<AckProgress>,
) {
    let next = clamped(next_expected_index, s.total_chunks);
    if next <= s.acknowledged_chunks {
        (s, None)
    } else {
        let bytes = acknowledged_bytes(s.file_size, s.total_chunks, next) as i64;
        if bytes <= s.transferred_bytes {
            (OutgoingAckState { acknowledged_chunks: next, ..s }, None)
        } else {
            let finished = bytes >= s.file_size;
            let report = finished || now - s.last_progress_at >= TRANSFER_PROGRESS_INTERVAL_MS;
            (
                OutgoingAckState {
                    acknowledged_chunks: next,
                    transferred_bytes: bytes,
                    last_reported_bytes: if report {
                        bytes
                    } else {
                        s.last_reported_bytes
                    },
                    last_progress_at: if report {
                        now
                    } else {
                        s.last_progress_at
                    },
                    ..s
                },
                Some(
                    AckProgress {
                        transferred_bytes: bytes,
                        finished,
                        report: if report {
                            Some(
                                ProgressReport {
                                    delta_bytes: (bytes - s.last_reported_bytes) as i64,
                                    duration_ms: (now - s.last_progress_at) as i64,
                                },
                            )
                        } else {
                            None
                        },
                    },
                ),
            )
        }
    }
}

impl OutgoingAckState {
    /// Applies an acknowledgement that the receiver now expects chunk
    /// `next_expected_index`, at `now_ms`. Returns what moved forward, if
    /// the shown transfer did.
    pub fn apply_ack(&mut self, next_expected_index: i64, now_ms: i64) -> (r: Option<AckProgress>)
        requires
            old(self).total_chunks >= 0,
            old(self).last_reported_bytes >= (if old(self).file_size > 0 {
                old(self).file_size
            } else {
                0
            }) - i64::MAX,
            i64::MIN <= now_ms - old(self).last_progress_at <= i64::MAX,
        ensures
            (*final(self), r) == ack_step(*old(self), next_expected_index, now_ms),
    {
        let next = if next_expected_index < 0 {
            0
        } else if next_expected_index > self.total_chunks {
            self.total_chunks
        } else {
            next_expected_index
        };
        if next <= self.acknowledged_chunks {
            return None;
        }
        self.acknowledged_chunks = next;
        let bytes = acknowledged_file_bytes(self.file_size, self.total_chunks, next);
        if bytes <= self.transferred_bytes {
            return None;
        }
        self.transferred_bytes = bytes;
        let finished = bytes >= self.file_size;
        let report = finished || now_ms - self.last_progress_at >= TRANSFER_PROGRESS_INTERVAL_MS;
        let report = if report {
            let r = ProgressReport {
                delta_bytes: bytes - self.last_reported_bytes,
                duration_ms: now_ms - self.last_progress_at,
            };
            self.last_reported_bytes = bytes;
            self.last_progress_at = now_ms;
            Some(r)
        } else {
            None
        };
        Some(AckProgress { transferred_bytes: bytes, finished, report })
    }
}

/// Acknowledgements only move a transfer forward: neither the acknowledged
/// chunks nor the bytes shown as transferred ever go back, the chunks stay
/// within the file's, and the bytes only ever move to a count within the
/// file's size.
pub proof fn lemma_ack_monotone(s: OutgoingAckState, next_expected_index: i64, now: i64)
    requires
        s.file_size >= 0,
        s.total_chunks >= 0,
        0 <= s.acknowledged_chunks <= s.total_chunks,
    ensures
        ({
            let (n, _) = ack_step(s, next_expected_index, now);
            &&& s.acknowledged_chunks <= n.acknowledged_chunks <= n.total_chunks
            &&& s.transferred_bytes <= n.transferred_bytes
            &&& n.file_size == s.file_size && n.total_chunks == s.total_chunks
            &&& n.transferred_bytes == s.transferred_bytes || n.transferred_bytes <= s.file_size
        }),
{
}

} // verus!
