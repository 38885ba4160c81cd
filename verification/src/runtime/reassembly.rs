//! The receiver's ordering of file chunks. Chunks are appended to the file
//! strictly in index order. Over the v3 cloud relay, chunks that arrive
//! ahead of the next expected one are held back within a window and
//! appended as soon as the gap before them closes; on the other routes an
//! early chunk makes the receiver ask for the missing one again.
use vstd::prelude::*;

use crate::error::AppError;
use std::collections::HashMap;

verus! {

broadcast use vstd::std_specs::hash::group_hash_axioms;

/// The receiving side of one transfer's chunk stream.
pub struct ChunkReassembly {
    received_chunks: i64,
    total_chunks: i64,
    finish_received: bool,
    relay_v3: bool,
    window: i64,
    held: HashMap<i64, Vec<u8>>,
    gap_detected_at: Option<i64>,
}

/// A chunk stream's state as values.
pub struct ReassemblyView {
    /// The number of chunks appended so far, which is the index expected
    /// next.
    pub received: i64,
    /// The announced number of chunks (0 while unknown).
    pub total: i64,
    /// Whether the sender said it sent everything.
    pub finish_received: bool,
    /// Whether the stream runs v3 over the cloud relay.
    pub relay_v3: bool,
    /// How far ahead of the expected index chunks are held back, and how
    /// many at most.
    pub window: i64,
    /// The chunks held back, by index.
    pub held: Map<i64, Seq<u8>>,
    /// Since when a gap is waited on, if one is.
    pub gap_detected_at: Option<i64>,
}

impl View for ChunkReassembly {
    type V = ReassemblyView;

    closed spec fn view(&self) -> ReassemblyView {
        ReassemblyView {
            received: self.received_chunks,
            total: self.total_chunks,
            finish_received: self.finish_received,
            relay_v3: self.relay_v3,
            window: self.window,
            held: self.held@.map_values(|v: Vec<u8>| v@),
            gap_detected_at: self.gap_detected_at,
        }
    }
}

/// What a chunk that arrived comes to.
#[derive(Debug)]
pub enum ChunkReceipt {
    /// It was appended before: acknowledge what has been received.
    Duplicate,
    /// It is ahead of the expected index. Over the v3 relay it was held
    /// back when it fit the window; elsewhere the expected chunk is asked
    /// for again.
    Ahead { held: bool },
    /// Append these chunks to the file, in order: the one that arrived and
    /// the held-back ones it made consecutive.
    Deliver(Vec<Vec<u8>>),
}

/// A receipt as values.
pub enum ReceiptView {
    Duplicate,
    Ahead { held: bool },
    Deliver(Seq<Seq<u8>>),
}

/// The contents of a list of chunks.
pub open spec fn chunk_views(chunks: Seq<Vec<u8>>) -> Seq<Seq<u8>> {
    chunks.map_values(|c: Vec<u8>| c@)
}

/// The values of a receipt.
pub open spec fn receipt_view(r: ChunkReceipt) -> ReceiptView {
    match r {
        ChunkReceipt::Duplicate => ReceiptView::Duplicate,
        ChunkReceipt::Ahead { held } => ReceiptView::Ahead { held },
        ChunkReceipt::Deliver(chunks) => ReceiptView::Deliver(chunk_views(chunks@)),
    }
}

/// The held-back chunks with an index of at least `from`.
pub open spec fn held_from(held: Map<i64, Seq<u8>>, from: int) -> Map<i64, Seq<u8>> {
    held.restrict(held.dom().filter(|k: i64| k >= from))
}

/// What receiving chunk `index` with `bytes` at `now` does to the stream
/// `v`, making it `n` with receipt `r`. A chunk before the expected index
/// is a duplicate. A chunk ahead of it is held back over the v3 relay when
/// it lies within the window and the window has room (or holds that index
/// already), and a gap is noted. The expected chunk is delivered with the
/// run of held-back chunks that follows it, which leave the buffer; the gap
/// is then open exactly while chunks are still held back.
pub open spec fn chunk_step(
    v: ReassemblyView,
    index: i64,
    bytes: Seq<u8>,
    now: i64,
    r: ReceiptView,
    n: ReassemblyView,
) -> bool {
    if index < v.received {
        r == ReceiptView::Duplicate && n == v
    } else if index > v.received {
        if v.relay_v3 {
            let fits = index - v.received <= v.window && (v.held.contains_key(index) || v.held.len()
                < v.window);
            &&& r == ReceiptView::Ahead { held: fits }
            &&& n == ReassemblyView {
                held: if fits {
                    v.held.insert(index, bytes)
                } else {
                    v.held
                },
                gap_detected_at: Some(or_now(v.gap_detected_at, now)),
                ..v
            }
        } else {
            r == ReceiptView::Ahead { held: false } && n == v
        }
    } else {
        r matches ReceiptView::Deliver(chunks) && {
            let count = chunks.len();
            &&& count >= 1
            &&& index + count <= i64::MAX
            &&& chunks[0] == bytes
            &&& follows_run(chunks, v.held, index as int)
            &&& v.relay_v3 ==> !v.held.contains_key((index + count) as i64)
            &&& !v.relay_v3 ==> count == 1
            &&& n == ReassemblyView {
                received: (index + count) as i64,
                held: held_from(v.held, index + count),
                gap_detected_at: if v.relay_v3 {
                    if held_from(v.held, index + count).len() == 0 {
                        None
                    } else {
                        Some(now)
                    }
                } else {
                    v.gap_detected_at
                },
                ..v
            }
        }
    }
}

/// The chunk held back for index `k`, if any.
pub open spec fn held_chunk(held: Map<i64, Seq<u8>>, k: int) -> Option<Seq<u8>> {
    if i64::MIN <= k <= i64::MAX && held.contains_key(k as i64) {
        Some(held[k as i64])
    } else {
        None
    }
}

/// Each chunk of `chunks` after the first is the held-back chunk of the
/// index that follows `index` by its position.
pub open spec fn follows_run(chunks: Seq<Seq<u8>>, held: Map<i64, Seq<u8>>, index: int) -> bool {
    forall|j: int| 1 <= j < chunks.len() ==> held_chunk(held, index + j) == Some(#[trigger] chunks[j])
}

/// `o`'s value, or `now` without one.
pub open spec fn or_now(o: Option<i64>, now: i64) -> i64 {
    match o {
        Some(t) => t,
        None => now,
    }
}

/// What follows a delivery.
#[derive(Clone, Copy, Debug, PartialEq, Eq, Structural)]
pub enum DeliveryFollowUp {
    /// Every chunk is in: finish the file.
    Finish,
    /// The sender is done but chunks are missing: ask for the next one.
    Retransmit,
    /// Keep receiving.
    Continue,
}

/// What the receiver does after a sender's LAN finish.
#[derive(Clone, Copy, Debug, PartialEq, Eq, Structural)]
pub enum FinishStep {
    /// Every announced chunk is in: finish the file.
    Finish,
    /// Chunks are missing: ask for the next one again.
    Retransmit,
    /// Chunks are missing: wait for them.
    Wait,
}

impl ChunkReassembly {
    /// Held-back chunks lie ahead of the expected index, within the window,
    /// no more of them than the window allows, and below the largest index;
    /// only the v3 relay holds any back.
    pub closed spec fn wf(&self) -> bool {
        let v = self@;
        &&& 0 <= v.received
        &&& 0 <= v.window
        &&& v.held.len() <= v.window
        &&& !v.relay_v3 ==> v.held.len() == 0
        &&& forall|k: i64| #[trigger] v.held.contains_key(k) ==> v.received < k && k <= v.received + v.window
            && k < i64::MAX
    }

    /// A stream expecting its first chunk, of `total_chunks` announced
    /// chunks (0 while unknown), holding back at most `window` chunks when
    /// it runs v3 over the cloud relay.
    pub fn new(total_chunks: i64, relay_v3: bool, window: i64) -> (r: Self)
        requires
            window >= 0,
        ensures
            r.wf(),
            r@ == (ReassemblyView {
                received: 0,
                total: total_chunks,
                finish_received: false,
                relay_v3,
                window,
                held: Map::empty(),
                gap_detected_at: None,
            }),
    {
        let r = ChunkReassembly {
            received_chunks: 0,
            total_chunks,
            finish_received: false,
            relay_v3,
            window,
            held: HashMap::new(),
            gap_detected_at: None,
        };
        proof {
            assert(r@.held =~= Map::<i64, Seq<u8>>::empty());
        }
        r
    }

    /// The number of chunks appended so far.
    pub fn received_chunks(&self) -> (r: i64)
        ensures
            r == self@.received,
    {
        self.received_chunks
    }

    /// Receives chunk `index` with `bytes` at `now_ms`. Refused when the
    /// index is negative, or lies past the announced total once the sender
    /// finished; the stream is then left as it is.
    pub fn receive_chunk(&mut self, index: i64, bytes: Vec<u8>, now_ms: i64) -> (r: Result<
        ChunkReceipt,
        AppError,
    >)
        requires
            old(self).wf(),
            index < i64::MAX,
        ensures
            final(self).wf(),
            index < 0 ==> (r matches Err(e) && e.message@ == "file chunk index is negative"@)
                && final(self)@ == old(self)@,
            index >= 0 && old(self)@.finish_received && old(self)@.total >= 0 && index >= old(
                self,
            )@.total ==> (r matches Err(e) && e.message@ == "file chunk exceeds announced total"@)
                && final(self)@ == old(self)@,
            index >= 0 && !(old(self)@.finish_received && old(self)@.total >= 0 && index >= old(
                self,
            )@.total) ==> (r matches Ok(receipt) && chunk_step(
                old(self)@,
                index,
                bytes@,
                now_ms,
                receipt_view(receipt),
                final(self)@,
            )),
    {
        if index < 0 {
            return Err(AppError::message("file chunk index is negative"));
        }
        if self.finish_received && self.total_chunks >= 0 && index >= self.total_chunks {
            return Err(AppError::message("file chunk exceeds announced total"));
        }
        if index < self.received_chunks {
            return Ok(ChunkReceipt::Duplicate);
        }
        if index > self.received_chunks {
            if !self.relay_v3 {
                return Ok(ChunkReceipt::Ahead { held: false });
            }
            let ghost before = self@;
            let within = index - self.received_chunks <= self.window;
            let present = self.held.contains_key(&index);
            let len = self.held.len();
            proof {
                assert(self.held@.dom() =~= before.held.dom());
            }
            let fits = within && (present || (len as u64) < (self.window as u64));
            if fits {
                let ghost stored = bytes@;
                self.held.insert(index, bytes);
                proof {
                    assert(self@.held =~= before.held.insert(index, stored));
                    if !present {
                        assert(self@.held.dom() =~= before.held.dom().insert(index));
                    } else {
                        assert(self@.held.dom() =~= before.held.dom());
                    }
                }
            }
            let gap = match self.gap_detected_at {
                Some(t) => t,
                None => now_ms,
            };
            self.gap_detected_at = Some(gap);
            return Ok(ChunkReceipt::Ahead { held: fits });
        }
        self.deliver(index, bytes, now_ms)
    }

    /// Delivers the expected chunk `index` and the held-back run after it.
    fn deliver(&mut self, index: i64, bytes: Vec<u8>, now_ms: i64) -> (r: Result<ChunkReceipt, AppError>)
        requires
            old(self).wf(),
            index == old(self)@.received,
            index < i64::MAX,
        ensures
            final(self).wf(),
            r matches Ok(receipt) && chunk_step(
                old(self)@,
                index,
                bytes@,
                now_ms,
                receipt_view(receipt),
                final(self)@,
            ),
    {
        let ghost v = self@;
        let ghost first = bytes@;
        proof {
            lemma_held_finite(&self.held);
        }
        let mut delivered: Vec<Vec<u8>> = Vec::new();
        delivered.push(bytes);
        self.received_chunks = index + 1;
        proof {
            assert(self@.held =~= held_from(v.held, index + 1)) by {
                assert forall|k: i64| v.held.contains_key(k) implies k >= index + 1 by {}
            }
        }
        if self.relay_v3 {
            loop
                invariant
                    0 <= index < i64::MAX,
                    v.relay_v3,
                    v.held.dom().finite(),
                    forall|k: i64| #[trigger] v.held.contains_key(k) ==> index < k && k < i64::MAX,
                    self@ == (ReassemblyView { received: self@.received, held: self@.held, ..v }),
                    self@.received == index + delivered@.len(),
                    delivered@.len() >= 1,
                    delivered@[0]@ == first,
                    follows_run(chunk_views(delivered@), v.held, index as int),
                    self@.held == held_from(v.held, self@.received as int),
                ensures
                    !v.held.contains_key(self@.received),
                decreases self@.held.len(),
            {
                let next = self.received_chunks;
                proof {
                    lemma_held_finite(&self.held);
                }
                let ghost before = self@.held;
                let ghost d0 = chunk_views(delivered@);
                match self.held.remove(&next) {
                    Some(chunk) => {
                        proof {
                            lemma_held_finite(&self.held);
                            assert(before.contains_key(next));
                            assert(before[next] == chunk@);
                            assert(v.held.contains_key(next) && v.held[next] == chunk@);
                            assert(self@.held =~= before.remove(next));
                            assert(self@.held =~= held_from(v.held, next + 1));
                            assert(self@.held.len() < before.len());
                        }
                        let ghost c = chunk@;
                        delivered.push(chunk);
                        self.received_chunks = next + 1;
                        proof {
                            assert(chunk_views(delivered@) =~= d0.push(c));
                            assert(index + d0.len() == next);
                            assert(held_chunk(v.held, next as int) == Some(c));
                            lemma_follows_run_push(d0, c, v.held, index as int);
                        }
                    },
                    None => {
                        proof {
                            assert(!before.contains_key(next));
                            assert(!v.held.contains_key(next));
                        }
                        break ;
                    },
                }
            }
            proof {
                lemma_held_finite(&self.held);
            }
            let empty = self.held.is_empty();
            self.gap_detected_at = if empty {
                None
            } else {
                Some(now_ms)
            };
            proof {
                vstd::set_lib::lemma_set_empty_equivalency_len(self@.held.dom());
                assert(empty == (self@.held.len() == 0)) by {
                    if empty {
                        assert(self@.held.dom() =~= Set::empty());
                    }
                }
            }
        } else {
            proof {
                vstd::set_lib::lemma_set_empty_equivalency_len(v.held.dom());
                assert(v.held.dom() =~= Set::empty());
                assert(held_from(v.held, index + 1) =~= v.held);
            }
        }
        proof {
            lemma_held_finite(&self.held);
            assert(self@.held.dom().subset_of(v.held.dom()));
            vstd::set_lib::lemma_len_subset(self@.held.dom(), v.held.dom());
        }
        Ok(ChunkReceipt::Deliver(delivered))
    }

    /// What follows a delivery: finishing once every announced chunk is in
    /// (for chunks relayed on the v2 protocol, as soon as that happens; on
    /// the LAN and over the v3 relay, once the sender also finished), asking
    /// again for the next chunk when a LAN sender finished with chunks still
    /// missing, and receiving on otherwise.
    pub fn after_delivery(&self, finish_when_complete: bool) -> (r: DeliveryFollowUp)
        ensures
            ({
                let v = self@;
                let finished = v.total > 0 && v.received >= v.total;
                r == if finish_when_complete && finished {
                    DeliveryFollowUp::Finish
                } else if !finish_when_complete && v.finish_received && !v.relay_v3 {
                    if finished {
                        DeliveryFollowUp::Finish
                    } else {
                        DeliveryFollowUp::Retransmit
                    }
                } else if v.relay_v3 && v.finish_received && finished {
                    DeliveryFollowUp::Finish
                } else {
                    DeliveryFollowUp::Continue
                }
            }),
    {
        let finished = self.total_chunks > 0 && self.received_chunks >= self.total_chunks;
        if finish_when_complete && finished {
            DeliveryFollowUp::Finish
        } else if !finish_when_complete && self.finish_received && !self.relay_v3 {
            if finished {
                DeliveryFollowUp::Finish
            } else {
                DeliveryFollowUp::Retransmit
            }
        } else if self.relay_v3 && self.finish_received && finished {
            DeliveryFollowUp::Finish
        } else {
            DeliveryFollowUp::Continue
        }
    }

    /// The sender finished its LAN stream: the file is finished when every
    /// announced chunk is in, else the next one is asked for again.
    pub fn lan_finish(&mut self) -> (r: FinishStep)
        requires
            old(self).wf(),
        ensures
            final(self).wf(),
            final(self)@ == (ReassemblyView { finish_received: true, ..old(self)@ }),
            r == (if old(self)@.received < old(self)@.total {
                FinishStep::Retransmit
            } else {
                FinishStep::Finish
            }),
    {
        self.finish_received = true;
        if self.received_chunks < self.total_chunks {
            FinishStep::Retransmit
        } else {
            FinishStep::Finish
        }
    }

    /// The sender finished its v3 relay stream with `total_chunks` chunks,
    /// at `now_ms`. A negative count, or one that differs from a count
    /// announced before, is refused with the stream left as it is. Otherwise
    /// the count is recorded with the finish; with chunks missing a gap is
    /// noted and they are waited for; more chunks received than announced
    /// is refused.
    pub fn v3_finish(&mut self, total_chunks: i64, now_ms: i64) -> (r: Result<FinishStep, AppError>)
        requires
            old(self).wf(),
        ensures
            final(self).wf(),
            total_chunks < 0 ==> (r matches Err(e) && e.message@ == "file.v3.finish has a negative chunk count"@)
                && final(self)@ == old(self)@,
            total_chunks >= 0 && old(self)@.total != 0 && old(self)@.total != total_chunks ==> (r matches Err(
                e,
            ) && e.message@ == "file.v3.finish total chunk count changed"@) && final(self)@ == old(
            self)@,
            total_chunks >= 0 && (old(self)@.total == 0 || old(self)@.total == total_chunks) ==> {
                &&& final(self)@ == (ReassemblyView {
                    total: total_chunks,
                    finish_received: true,
                    gap_detected_at: if old(self)@.received < total_chunks {
                        Some(or_now(old(self)@.gap_detected_at, now_ms))
                    } else {
                        old(self)@.gap_detected_at
                    },
                    ..old(self)@
                })
                &&& old(self)@.received < total_chunks ==> r == Ok::<FinishStep, AppError>(FinishStep::Wait)
                &&& old(self)@.received > total_chunks ==> (r matches Err(e) && e.message@
                    == "file.v3.finish excludes already received chunks"@)
                &&& old(self)@.received == total_chunks ==> r == Ok::<FinishStep, AppError>(
                    FinishStep::Finish,
                )
            },
    {
        if total_chunks < 0 {
            return Err(AppError::message("file.v3.finish has a negative chunk count"));
        }
        if self.total_chunks != 0 && self.total_chunks != total_chunks {
            return Err(AppError::message("file.v3.finish total chunk count changed"));
        }
        self.total_chunks = total_chunks;
        self.finish_received = true;
        if self.received_chunks < total_chunks {
            let gap = match self.gap_detected_at {
                Some(t) => t,
                None => now_ms,
            };
            self.gap_detected_at = Some(gap);
            return Ok(FinishStep::Wait);
        }
        if self.received_chunks > total_chunks {
            return Err(AppError::message("file.v3.finish excludes already received chunks"));
        }
        Ok(FinishStep::Finish)
    }
}

proof fn lemma_follows_run_push(chunks: Seq<Seq<u8>>, c: Seq<u8>, held: Map<i64, Seq<u8>>, index: int)
    requires
        follows_run(chunks, held, index),
        chunks.len() >= 1,
        held_chunk(held, index + chunks.len()) == Some(c),
    ensures
        follows_run(chunks.push(c), held, index),
{
    let d = chunks.push(c);
    assert forall|j: int| 1 <= j < d.len() implies held_chunk(held, index + j) == Some(#[trigger] d[j]) by {
        if j < chunks.len() {
            assert(d[j] == chunks[j]);
        }
    }
}

proof fn lemma_held_finite(m: &HashMap<i64, Vec<u8>>)
    ensures
        m@.dom().finite(),
        m@.map_values(|v: Vec<u8>| v@).dom() == m@.dom(),
{
    assert(m@.dom().finite());
    assert(m@.map_values(|v: Vec<u8>| v@).dom() =~= m@.dom());
}

// ---------------------------------------------------------------------------
// Laws
// ---------------------------------------------------------------------------

/// Every held-back chunk is the sender's chunk of that index.
pub open spec fn holds_sender_chunks(held: Map<i64, Seq<u8>>, sent: spec_fn(int) -> Seq<u8>) -> bool {
    forall|k: i64| #[trigger] held.contains_key(k) ==> held[k] == sent(k as int)
}

/// The sender's chunks `from..to`, in order.
pub open spec fn sent_range(sent: spec_fn(int) -> Seq<u8>, from: int, to: int) -> Seq<Seq<u8>> {
    Seq::new((to - from) as nat, |j: int| sent(from + j))
}

/// Chunks are appended in index order whatever order they arrive in: when
/// the sender's chunk `i` is always `sent(i)`, what a stream has appended
/// is the sender's chunks `0..received`, and stays so with every chunk it
/// receives (each delivery continuing where the last stopped), while the
/// chunks it holds back stay the sender's.
pub proof fn lemma_chunks_appended_in_order(
    v: ReassemblyView,
    index: i64,
    now: i64,
    r: ReceiptView,
    n: ReassemblyView,
    appended: Seq<Seq<u8>>,
    sent: spec_fn(int) -> Seq<u8>,
)
    requires
        0 <= v.received,
        appended == sent_range(sent, 0, v.received as int),
        holds_sender_chunks(v.held, sent),
        chunk_step(v, index, sent(index as int), now, r, n),
    ensures
        holds_sender_chunks(n.held, sent),
        match r {
            ReceiptView::Deliver(chunks) => appended + chunks == sent_range(sent, 0, n.received as int),
            _ => n.received == v.received,
        },
{
    if let ReceiptView::Deliver(chunks) = r {
        if index == v.received {
            assert(appended + chunks =~= sent_range(sent, 0, n.received as int)) by {
                assert forall|j: int| 0 <= j < chunks.len() implies #[trigger] chunks[j] == sent(index + j) by {
                    if j >= 1 {
                        assert(held_chunk(v.held, index + j) == Some(chunks[j]));
                        let k = (index + j) as i64;
                        assert(v.held.contains_key(k));
                        assert(k as int == index + j);
                    }
                }
            }
        }
    }
    if index > v.received && v.relay_v3 {
        assert forall|k: i64| #[trigger] n.held.contains_key(k) implies n.held[k] == sent(k as int) by {
            if k != index {
                assert(v.held.contains_key(k));
            }
        }
    }
}

} // verus!
