use crate::applier::{
    processing_imported_message, spec_import, FileStore, IOResult, Storage,
};
use crate::codec::{decode_entity, encodable, sdec_entity, senc_entity};
use crate::entity::SpecEntity;
use crate::message::{
    b64_of, create_export_message, decode_message, encode_message, spec_export_outcome,
    DecodedMsg,
};
use crate::queue::OutQueue;
use crate::status::ExImCode;
use vstd::prelude::*;

verus! {

pub const BACKOFF_FLOOR_MS: u32 = 1000;

pub const BACKOFF_CEILING_MS: u32 = 30000;

pub const BACKOFF_STEP_MS: u32 = 1000;

/// The engine's process-wide adaptive sleep cadence: reset to the
/// floor whenever any record was sent or any peer showed activity,
/// grown by a fixed step per idle tick, never above the ceiling.
pub struct Backoff {
    pub ms: u32,
}

impl Backoff {
    /// The interval always stays within the floor and the ceiling.
    pub open spec fn wf(self) -> bool {
        BACKOFF_FLOOR_MS <= self.ms <= BACKOFF_CEILING_MS
    }

    pub fn new() -> (r: Backoff)
        ensures
            r.ms == BACKOFF_FLOOR_MS,
            r.wf(),
    {
        Backoff { ms: BACKOFF_FLOOR_MS }
    }

    /// A sent record or observed peer activity resets the cadence to
    /// the floor at once.
    pub fn note_activity(&mut self)
        ensures
            final(self).ms == BACKOFF_FLOOR_MS,
            final(self).wf(),
    {
        self.ms = BACKOFF_FLOOR_MS;
    }

    /// The interval to sleep after this tick; an idle tick grows the
    /// next interval by one step, capped at the ceiling.
    pub fn next_interval(&mut self) -> (d: u32)
        requires
            old(self).wf(),
        ensures
            d == old(self).ms,
            BACKOFF_FLOOR_MS <= d <= BACKOFF_CEILING_MS,
            old(self).ms + BACKOFF_STEP_MS <= BACKOFF_CEILING_MS ==> final(self).ms == old(
                self,
            ).ms + BACKOFF_STEP_MS,
            old(self).ms + BACKOFF_STEP_MS > BACKOFF_CEILING_MS ==> final(self).ms
                == BACKOFF_CEILING_MS,
            final(self).wf(),
    {
        let d = self.ms;
        if self.ms <= BACKOFF_CEILING_MS - BACKOFF_STEP_MS {
            self.ms = self.ms + BACKOFF_STEP_MS;
        } else {
            self.ms = BACKOFF_CEILING_MS;
        }
        d
    }
}

pub const MAX_DELIVERY_ATTEMPTS: u8 = 10;

pub const RETRY_DELAY_STEP_MS: u64 = 100;

/// What one delivery attempt came back as.
#[derive(Clone, Copy, PartialEq, Eq, Structural, Debug)]
pub enum Delivery {
    Delivered,
    Rejected,
}

/// What the engine does after one delivery attempt.
#[derive(Clone, Copy, PartialEq, Eq, Structural, Debug)]
pub enum RetryDecision {
    CommitRecord,
    RetryAfterMs(u64),
    AbortSendFailed,
}

/// What the engine decides when `attempts` deliveries of the current
/// record have already failed and one more has just come back.
pub open spec fn spec_retry_decision(attempts: u8, delivered: bool) -> RetryDecision {
    if delivered {
        RetryDecision::CommitRecord
    } else if attempts + 1 < MAX_DELIVERY_ATTEMPTS {
        RetryDecision::RetryAfterMs(((RETRY_DELAY_STEP_MS * attempts) as u64))
    } else {
        RetryDecision::AbortSendFailed
    }
}

/// The bounded retry state for one record: how many delivery attempts
/// have failed so far.
pub struct RetryState {
    pub attempts: u8,
}

impl RetryState {
    pub fn new() -> (r: RetryState)
        ensures
            r.attempts == 0,
    {
        RetryState { attempts: 0 }
    }

    /// Feeds one delivery outcome: success commits the record; a
    /// failure either waits a strictly growing delay and retries, or,
    /// at the attempt bound, aborts the batch with `SendFailed` so the
    /// record's cursor stays uncommitted.
    pub fn step(&mut self, outcome: Delivery) -> (d: RetryDecision)
        requires
            old(self).attempts < MAX_DELIVERY_ATTEMPTS,
        ensures
            d == spec_retry_decision(old(self).attempts, outcome == Delivery::Delivered),
            outcome == Delivery::Delivered ==> final(self).attempts == old(self).attempts,
            outcome == Delivery::Rejected ==> final(self).attempts == old(self).attempts + 1,
    {
        match outcome {
            Delivery::Delivered => RetryDecision::CommitRecord,
            Delivery::Rejected => {
                self.attempts = self.attempts + 1;
                if self.attempts < MAX_DELIVERY_ATTEMPTS {
                    RetryDecision::RetryAfterMs(RETRY_DELAY_STEP_MS * ((self.attempts - 1) as u64))
                } else {
                    RetryDecision::AbortSendFailed
                }
            },
        }
    }
}

/// A permanently rejecting peer sees exactly `MAX_DELIVERY_ATTEMPTS`
/// attempts: the first nine failures wait delays that strictly
/// increase, and the tenth aborts the batch with `SendFailed`.  No
/// failed delivery ever yields the commit decision, so the record of an
/// exhausted retry sequence keeps its cursor and is redelivered on a
/// later tick, never silently dropped.
pub proof fn lemma_retry_exhaustion()
    ensures
        forall|k: u8|
            k + 1 < MAX_DELIVERY_ATTEMPTS ==> #[trigger] spec_retry_decision(k, false)
                == RetryDecision::RetryAfterMs(((RETRY_DELAY_STEP_MS * k) as u64)),
        forall|k1: u8, k2: u8|
            k1 < k2 && k2 + 1 < MAX_DELIVERY_ATTEMPTS ==> (#[trigger] spec_retry_decision(
                k1,
                false,
            ))->0 < (#[trigger] spec_retry_decision(k2, false))->0,
        spec_retry_decision((MAX_DELIVERY_ATTEMPTS - 1) as u8, false)
            == RetryDecision::AbortSendFailed,
        forall|k: u8|
            #[trigger] spec_retry_decision(k, false) != RetryDecision::CommitRecord,
        forall|k: u8| #[trigger] spec_retry_decision(k, true) == RetryDecision::CommitRecord,
{
}

/// The responder this master talks to, modelled by its identifier and
/// the state its applier mutates.
pub struct PeerNode {
    pub node_id: Vec<u8>,
    pub storage: Storage,
    pub files: FileStore,
}

/// What one push phase leaves behind: the cursor after the last
/// committed record, how many records were delivered, the code the
/// phase ends with, and the peer state after every applied record.
pub struct SpecPushOutcome {
    pub cursor: int,
    pub sent: int,
    pub code: ExImCode,
    pub store: Map<Seq<u8>, SpecEntity>,
    pub files: Map<Seq<u8>, Seq<u8>>,
}

/// The push phase over the pending records, record by record: a record
/// for another node is skipped and committed; an invalid record aborts
/// the batch uncommitted; a valid one is rebuilt canonically, delivered
/// to the peer's applier, counted and committed.
pub open spec fn spec_push_run(
    recs: Seq<Seq<u8>>,
    cursor: int,
    node: Seq<u8>,
    peer_id: Seq<u8>,
    store: Map<Seq<u8>, SpecEntity>,
    files: Map<Seq<u8>, Seq<u8>>,
) -> SpecPushOutcome
    decreases recs.len() - cursor,
    when 0 <= cursor <= recs.len()
{
    if cursor >= recs.len() {
        SpecPushOutcome { cursor, sent: 0, code: ExImCode::Success, store, files }
    } else {
        match sdec_entity(recs[cursor]) {
            None => SpecPushOutcome {
                cursor,
                sent: 0,
                code: ExImCode::InvalidMessage,
                store,
                files,
            },
            Some(m) => match spec_export_outcome(m, node) {
                Err(c) => {
                    if c == ExImCode::Success {
                        spec_push_run(recs, cursor + 1, node, peer_id, store, files)
                    } else {
                        SpecPushOutcome {
                            cursor,
                            sent: 0,
                            code: ExImCode::InvalidMessage,
                            store,
                            files,
                        }
                    }
                },
                Ok(out) => {
                    let o = spec_import(out, peer_id, store, files);
                    let rest = spec_push_run(recs, cursor + 1, node, peer_id, o.store, o.files);
                    SpecPushOutcome {
                        cursor: rest.cursor,
                        sent: rest.sent + 1,
                        code: rest.code,
                        store: rest.store,
                        files: rest.files,
                    }
                },
            },
        }
    }
}

/// A completed run with `sent_acc` earlier deliveries folded in.
spec fn push_cont(sent_acc: int, rest: SpecPushOutcome) -> SpecPushOutcome {
    SpecPushOutcome {
        cursor: rest.cursor,
        sent: rest.sent + sent_acc,
        code: rest.code,
        store: rest.store,
        files: rest.files,
    }
}

/// Drains the pending records of the outbound queue toward one peer:
/// the model push phase of the master's cycle, with a perfect
/// transport.  Skipped records consume no budget; the first invalid
/// record aborts the batch and leaves its cursor uncommitted.
#[verifier::rlimit(100)]
pub fn send_changes_to_node(queue_consumer: &mut OutQueue, peer: &mut PeerNode, node_id: &[u8]) -> (r: (
    u32,
    ExImCode,
))
    requires
        old(queue_consumer).wf(),
        old(queue_consumer).recs().len() < u32::MAX,
    ensures
        ({
            let o = spec_push_run(
                old(queue_consumer).recs(),
                old(queue_consumer).cursor as int,
                node_id@,
                old(peer).node_id@,
                old(peer).storage@,
                old(peer).files@,
            );
            &&& final(queue_consumer).recs() == old(queue_consumer).recs()
            &&& final(queue_consumer).cursor == o.cursor
            &&& final(queue_consumer).wf()
            &&& r.0 == o.sent
            &&& r.1 == o.code
            &&& final(peer).storage@ == o.store
            &&& final(peer).files@ == o.files
            &&& final(peer).node_id@ == old(peer).node_id@
        }),
{
    let ghost recs0 = queue_consumer.recs();
    let ghost c0 = queue_consumer.cursor as int;
    let ghost pid = peer.node_id@;
    let mut count_sent: u32 = 0;
    while queue_consumer.cursor < queue_consumer.records.len()
        invariant
            queue_consumer.wf(),
            queue_consumer.recs() == recs0,
            recs0 == old(queue_consumer).recs(),
            c0 == old(queue_consumer).cursor as int,
            pid == old(peer).node_id@,
            recs0.len() < u32::MAX,
            c0 <= queue_consumer.cursor <= recs0.len(),
            count_sent <= queue_consumer.cursor,
            peer.node_id@ == pid,
            spec_push_run(recs0, c0, node_id@, pid, old(peer).storage@, old(peer).files@)
                == push_cont(
                count_sent as int,
                spec_push_run(
                    recs0,
                    queue_consumer.cursor as int,
                    node_id@,
                    pid,
                    peer.storage@,
                    peer.files@,
                ),
            ),
        decreases recs0.len() - queue_consumer.cursor,
    {
        proof {
            assert(recs0[queue_consumer.cursor as int] == queue_consumer.records@[
                queue_consumer.cursor as int
            ]@);
        }
        let decoded = decode_entity(queue_consumer.records[queue_consumer.cursor].as_slice());
        let m = match decoded {
            Some(m) => m,
            None => {
                proof {
                    assert(sdec_entity(recs0[queue_consumer.cursor as int]) is None);
                    assert(spec_push_run(
                        recs0,
                        queue_consumer.cursor as int,
                        node_id@,
                        pid,
                        peer.storage@,
                        peer.files@,
                    ) == SpecPushOutcome {
                        cursor: queue_consumer.cursor as int,
                        sent: 0,
                        code: ExImCode::InvalidMessage,
                        store: peer.storage@,
                        files: peer.files@,
                    });
                }
                return (count_sent, ExImCode::InvalidMessage);
            },
        };
        match create_export_message(&m, node_id) {
            Err(code) => {
                if code == ExImCode::Success {
                    queue_consumer.commit();
                } else {
                    proof {
                        assert(sdec_entity(recs0[queue_consumer.cursor as int]) == Some(m@));
                        assert(spec_export_outcome(m@, node_id@) == Err::<SpecEntity, ExImCode>(
                            code,
                        ));
                        assert(spec_push_run(
                            recs0,
                            queue_consumer.cursor as int,
                            node_id@,
                            pid,
                            peer.storage@,
                            peer.files@,
                        ) == SpecPushOutcome {
                            cursor: queue_consumer.cursor as int,
                            sent: 0,
                            code: ExImCode::InvalidMessage,
                            store: peer.storage@,
                            files: peer.files@,
                        });
                    }
                    return (count_sent, ExImCode::InvalidMessage);
                }
            },
            Ok(out) => {
                let _applied = processing_imported_message(
                    peer.node_id.as_slice(),
                    &out,
                    &mut peer.storage,
                    &mut peer.files,
                );
                count_sent = count_sent + 1;
                queue_consumer.commit();
            },
        }
    }
    (count_sent, ExImCode::Success)
}

/// The computing part of the responder's pull endpoint: given the
/// record under the requester's cursor (if any) and the requesting
/// node, yields the envelope body to answer with and whether the
/// cursor is to be committed.  An empty body is the end-of-stream
/// sentinel.  A head that cannot be exported — undecodable bytes, or a
/// record that fails validation — is answered with the sentinel and
/// committed past, so that a malformed record never blocks the
/// requester's stream; only an empty queue leaves the cursor alone.
pub fn export_delta_step(rec: Option<&Vec<u8>>, node_id: &[u8]) -> (r: (String, bool))
    ensures
        ({
            match rec {
                None => r.1 == false && r.0@.len() == 0,
                Some(bytes) => r.1 == true && match sdec_entity(bytes@) {
                    None => r.0@.len() == 0,
                    Some(m) => match spec_export_outcome(m, node_id@) {
                        Ok(out) => r.0@ == b64_of(senc_entity(out)) && r.0@.len() > 0,
                        Err(_) => r.0@.len() == 0,
                    },
                },
            }
        }),
{
    match rec {
        None => (String::new(), false),
        Some(bytes) => match decode_entity(bytes.as_slice()) {
            None => (String::new(), true),
            Some(m) => match create_export_message(&m, node_id) {
                Ok(out) => (encode_message(&out), true),
                Err(_) => (String::new(), true),
            },
        },
    }
}

/// The computing part of the responder's push endpoint: decodes one
/// envelope and applies the record it carries.  The end-of-stream
/// sentinel and an undecodable envelope are no-ops: a record is
/// answered, and state may move, exactly when the body is the envelope
/// of one.
pub fn import_delta(my_node_id: &[u8], msg: &str, storage: &mut Storage, files: &mut FileStore) -> (r:
    Option<IOResult>)
    ensures
        r is None ==> final(storage)@ == old(storage)@ && final(files)@ == old(files)@,
        msg@.len() == 0 ==> r is None,
        r is Some <==> msg@.len() != 0 && (exists|e: SpecEntity|
            encodable(e) && msg@ == #[trigger] b64_of(senc_entity(e))),
        forall|e: SpecEntity|
            encodable(e) && msg@ == #[trigger] b64_of(senc_entity(e)) && msg@.len() != 0 ==> ({
                let o = spec_import(e, my_node_id@, old(storage)@, old(files)@);
                &&& r matches Some(res) && res.res_code == o.code && res.id@ == e.id
                &&& final(storage)@ == o.store
                &&& final(files)@ == o.files
            }),
{
    match decode_message(msg) {
        Ok(DecodedMsg::EndOfStream) => None,
        Ok(DecodedMsg::Record(en)) => {
            let res = processing_imported_message(my_node_id, &en, storage, files);
            Some(res)
        },
        Err(_) => None,
    }
}

} // verus!
