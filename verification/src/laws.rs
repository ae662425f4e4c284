//! What holds of a witness over any sequence of messages, and of witnesses
//! and aggregator together.

use crate::aggregator::{lemma_emitted_certificate_valid, vote_step, GeneratorView};
use crate::codec::reply_wire;
use crate::crypto::KeyPair;
use crate::error::WitnessError;
use crate::messages::{
    certificate_verdict, genesis_root, witness_signed, CertificateView, NotificationView,
    PublishVote, ReplyView, State,
};
use crate::witness::{certificate_step, notification_step, restored, WitnessView};
use vstd::prelude::*;

verus! {

/// A message that changes or may change a witness, with the outcome of the
/// proof check where the message is a notification.
pub enum Event {
    Notification { notification: NotificationView, proof_verified: bool },
    Certificate { certificate: CertificateView },
}

/// The reply of a witness to an event.
pub enum Reply {
    Vote(Result<PublishVote, WitnessError>),
    Commit(Result<State, WitnessError>),
}

/// One step of a witness: it handles `event` in state `pre`, is in state
/// `post` afterwards and answers `reply`.
pub open spec fn step(pre: WitnessView, event: Event, post: WitnessView, reply: Reply) -> bool {
    match event {
        Event::Notification { notification, proof_verified } => match reply {
            Reply::Vote(vote) => notification_step(pre, notification, proof_verified, post, vote),
            Reply::Commit(_) => false,
        },
        Event::Certificate { certificate } => match reply {
            Reply::Commit(state) => certificate_step(pre, certificate, post, state),
            Reply::Vote(_) => false,
        },
    }
}

/// A history of one witness: it starts in a well-formed state and handles the
/// events one after the other; `states[i]` is its state before `events[i]`
/// and `replies[i]` its answer to it.
pub open spec fn is_run(states: Seq<WitnessView>, events: Seq<Event>, replies: Seq<Reply>) -> bool {
    &&& states.len() == events.len() + 1
    &&& replies.len() == events.len()
    &&& states[0].wf()
    &&& forall|i: int|
        0 <= i < events.len() ==> step(states[i], #[trigger] events[i], states[i + 1], replies[i])
}

/// Whether `reply` says that a certificate was committed.
pub open spec fn committed(reply: Reply) -> bool {
    match reply {
        Reply::Commit(Ok(_)) => true,
        _ => false,
    }
}

/// A step keeps the invariant of the witness and leaves its identity, its
/// keys and its committee as they were. A commit raises the sequence number
/// by exactly one and appends to the archive; every other step leaves the
/// committed root, the sequence number and the archive unchanged.
pub proof fn lemma_step(pre: WitnessView, event: Event, post: WitnessView, reply: Reply)
    requires
        pre.wf(),
        step(pre, event, post, reply),
    ensures
        post.wf(),
        post.id == pre.id,
        post.secret == pre.secret,
        post.publisher == pre.publisher,
        post.committee == pre.committee,
        committed(reply) ==> post.sequence_number == pre.sequence_number + 1 && post.archive.len()
            == pre.archive.len() + 1 && post.archive.drop_last() == pre.archive
            && post.archive.last().root == post.root && post.pending is None,
        !committed(reply) ==> post.sequence_number == pre.sequence_number && post.root == pre.root
            && post.archive == pre.archive,
        !committed(reply) && pre.pending is Some ==> post == pre,
{
    match event {
        Event::Certificate { certificate } => {
            if committed(reply) {
                assert(post.archive == pre.archive.push(certificate));
                assert(post.archive.drop_last() =~= pre.archive);
                assert forall|i: int| 0 <= i < post.archive.len() implies (
                #[trigger] post.archive[i]).sequence_number == i + 1 && post.archive[i].valid(
                    &post.committee,
                ) by {
                    if i < pre.archive.len() {
                        assert(post.archive[i] == pre.archive[i]);
                    }
                }
            }
        },
        Event::Notification { notification, proof_verified } => {},
    }
}

/// Monotonicity. Between any two points of a history the sequence number
/// does not fall and the archive only grows at its end; and wherever the
/// sequence number is the same, so is the committed root: the witness never
/// holds two roots for one sequence number.
pub proof fn lemma_monotonic(
    states: Seq<WitnessView>,
    events: Seq<Event>,
    replies: Seq<Reply>,
    i: int,
    j: int,
)
    requires
        is_run(states, events, replies),
        0 <= i <= j < states.len(),
    ensures
        states[i].wf(),
        states[j].wf(),
        states[i].sequence_number <= states[j].sequence_number,
        states[i].archive.is_prefix_of(states[j].archive),
        states[i].sequence_number == states[j].sequence_number ==> states[i].root
            == states[j].root && states[i].archive == states[j].archive,
        forall|n: u64|
            states[i].archived(n) is Some ==> states[j].archived(n) == states[i].archived(n),
    decreases j,
{
    if j == 0 {
        assert(states[0].archive =~= states[0].archive.subrange(0, states[0].archive.len() as int));
    } else if i == j {
        lemma_monotonic(states, events, replies, 0, j - 1);
        lemma_step(states[j - 1], events[j - 1], states[j], replies[j - 1]);
        assert(states[j].archive =~= states[j].archive.subrange(0, states[j].archive.len() as int));
    } else {
        lemma_monotonic(states, events, replies, i, j - 1);
        lemma_step(states[j - 1], events[j - 1], states[j], replies[j - 1]);
        let a = states[i].archive;
        let b = states[j - 1].archive;
        let c = states[j].archive;
        assert(b =~= b.subrange(0, b.len() as int));
        if committed(replies[j - 1]) {
            assert(c.drop_last() == b);
            assert(a =~= c.subrange(0, a.len() as int)) by {
                assert(a =~= b.subrange(0, a.len() as int));
                assert forall|k: int| 0 <= k < a.len() implies a[k] == c[k] by {
                    assert(b[k] == c.drop_last()[k]);
                    assert(a[k] == b.subrange(0, a.len() as int)[k]);
                }
            }
        }
        assert forall|n: u64| states[i].archived(n) is Some implies states[j].archived(
            n,
        ) == states[i].archived(n) by {
            assert(a =~= c.subrange(0, a.len() as int));
            assert(a[n - 1] == c.subrange(0, a.len() as int)[n - 1]);
        }
        if states[i].sequence_number == states[j].sequence_number {
            assert(a =~= c);
        }
    }
}

/// Each commit raises the sequence number by exactly one, and the sequence
/// number changes in no other way.
pub proof fn lemma_commit_advances_by_one(
    states: Seq<WitnessView>,
    events: Seq<Event>,
    replies: Seq<Reply>,
    i: int,
)
    requires
        is_run(states, events, replies),
        0 <= i < events.len(),
    ensures
        committed(replies[i]) ==> states[i + 1].sequence_number == states[i].sequence_number + 1,
        !committed(replies[i]) ==> states[i + 1].sequence_number == states[i].sequence_number,
{
    lemma_monotonic(states, events, replies, i, i);
    lemma_step(states[i], events[i], states[i + 1], replies[i]);
}

/// While the sequence number stays the same, a pending vote stays as it is.
pub proof fn lemma_lock_held(
    states: Seq<WitnessView>,
    events: Seq<Event>,
    replies: Seq<Reply>,
    i: int,
    j: int,
)
    requires
        is_run(states, events, replies),
        0 <= i <= j < states.len(),
        states[i].pending is Some,
        states[i].sequence_number == states[j].sequence_number,
    ensures
        states[j].pending == states[i].pending,
    decreases j - i,
{
    if i < j {
        lemma_monotonic(states, events, replies, i, j - 1);
        lemma_monotonic(states, events, replies, j - 1, j);
        lemma_lock_held(states, events, replies, i, j - 1);
        lemma_step(states[j - 1], events[j - 1], states[j], replies[j - 1]);
    }
}

/// No equivocation. Whatever a witness is sent and however often, all the
/// votes it ever gives for one sequence number are the same vote: for the
/// same root, with the same signature.
pub proof fn lemma_no_equivocation(
    states: Seq<WitnessView>,
    events: Seq<Event>,
    replies: Seq<Reply>,
    i: int,
    j: int,
    first: PublishVote,
    second: PublishVote,
)
    requires
        is_run(states, events, replies),
        0 <= i <= j < events.len(),
        replies[i] == Reply::Vote(Ok(first)),
        replies[j] == Reply::Vote(Ok(second)),
        first.sequence_number == second.sequence_number,
    ensures
        first == second,
{
    lemma_monotonic(states, events, replies, i, i);
    lemma_monotonic(states, events, replies, j, j);
    lemma_step(states[i], events[i], states[i + 1], replies[i]);
    lemma_step(states[j], events[j], states[j + 1], replies[j]);
    assert(step(states[i], events[i], states[i + 1], replies[i]));
    assert(step(states[j], events[j], states[j + 1], replies[j]));
    assert(states[i + 1].pending == Some(first));
    if i < j {
        assert(first.sequence_number == states[i + 1].sequence_number + 1);
        assert(second.sequence_number == states[j].sequence_number + 1);
        lemma_lock_held(states, events, replies, i + 1, j);
    }
}

/// The second of two notifications for one sequence number with different
/// roots is rejected as an equivocation where the first was voted for, and
/// the rejection changes nothing.
pub proof fn lemma_conflicting_root_rejected(
    pre: WitnessView,
    first: NotificationView,
    first_proof_verified: bool,
    mid: WitnessView,
    first_reply: Result<PublishVote, WitnessError>,
    second: NotificationView,
    second_proof_verified: bool,
    post: WitnessView,
    second_reply: Result<PublishVote, WitnessError>,
)
    requires
        pre.wf(),
        notification_step(pre, first, first_proof_verified, mid, first_reply),
        notification_step(mid, second, second_proof_verified, post, second_reply),
        first_reply is Ok,
        second.sequence_number == first.sequence_number,
        second.root != first.root,
    ensures
        second_reply == Err::<PublishVote, WitnessError>(WitnessError::Equivocation),
        post == mid,
{
}

/// Idempotent voting. A notification for the root that the witness is locked
/// on is answered with the vote that was given before, byte for byte on the
/// wire, and changes nothing.
pub proof fn lemma_redelivery_same_vote(
    pre: WitnessView,
    first: NotificationView,
    first_proof_verified: bool,
    mid: WitnessView,
    first_reply: Result<PublishVote, WitnessError>,
    second: NotificationView,
    second_proof_verified: bool,
    post: WitnessView,
    second_reply: Result<PublishVote, WitnessError>,
)
    requires
        pre.wf(),
        notification_step(pre, first, first_proof_verified, mid, first_reply),
        notification_step(mid, second, second_proof_verified, post, second_reply),
        first_reply is Ok,
        second.sequence_number == first.sequence_number,
        second.root == first.root,
    ensures
        second_reply == first_reply,
        reply_wire(ReplyView::PublishVote(second_reply)) == reply_wire(
            ReplyView::PublishVote(first_reply),
        ),
        post == mid,
{
}

/// Synchronization. A witness that has committed nothing answers a state
/// query with the genesis root, sequence number 0 and no lock; and it has a
/// certificate for exactly the sequence numbers from 1 to the committed one,
/// each for the number it is asked under.
pub proof fn lemma_sync(witness: WitnessView, sequence_number: u64)
    requires
        witness.wf(),
    ensures
        witness.initial() ==> witness.state() == (State {
            root: genesis_root(),
            sequence_number: 0,
            lock: None,
        }),
        witness.archived(sequence_number) is Some <==> 1 <= sequence_number
            <= witness.sequence_number,
        match witness.archived(sequence_number) {
            Some(certificate) => certificate.sequence_number == sequence_number
                && certificate.valid(&witness.committee) && (sequence_number
                == witness.sequence_number ==> certificate.root == witness.root),
            None => true,
        },
{
}

/// A certificate that was committed is served: right after the commit the
/// witness has it archived under its sequence number, with the root that is
/// now committed, and has nothing for the sequence number after it.
pub proof fn lemma_committed_certificate_is_served(
    pre: WitnessView,
    certificate: CertificateView,
    post: WitnessView,
    state: State,
)
    requires
        pre.wf(),
        certificate_step(pre, certificate, post, Ok(state)),
    ensures
        post.archived(certificate.sequence_number) == Some(certificate),
        state == (State {
            root: certificate.root,
            sequence_number: certificate.sequence_number,
            lock: None,
        }),
        post.state() == state,
        certificate.sequence_number < u64::MAX ==> post.archived(
            (certificate.sequence_number + 1) as u64,
        ) is None,
{
}

/// A certificate with a vote that does not verify under the committee key of
/// its author fails the check, whichever vote it is, and a witness that is
/// handed it commits nothing.
pub proof fn lemma_unverifiable_vote_rejected(
    pre: WitnessView,
    certificate: CertificateView,
    i: int,
    post: WitnessView,
    reply: Result<State, WitnessError>,
)
    requires
        0 <= i < certificate.votes.len(),
        !witness_signed(
            &pre.committee,
            certificate.root,
            certificate.sequence_number,
            certificate.votes[i].0,
            certificate.votes[i].1,
        ),
        certificate_step(pre, certificate, post, reply),
    ensures
        certificate_verdict(certificate, &pre.committee) is Err,
        !certificate.valid(&pre.committee),
        reply is Err,
        post == pre,
{
}

/// What the aggregator certifies, every witness commits. A certificate
/// that an aggregator hands out is accepted by every witness of the same
/// committee that has committed the sequence number before it, whether or
/// not that witness voted itself; the witness then holds the certified root
/// and no lock.
pub proof fn lemma_certified_is_committed(
    aggregator: GeneratorView,
    vote: PublishVote,
    aggregator_after: GeneratorView,
    certificate: CertificateView,
    witness: WitnessView,
    witness_after: WitnessView,
    reply: Result<State, WitnessError>,
)
    requires
        aggregator.wf(),
        vote_step(aggregator, vote, aggregator_after, Some(certificate)),
        witness.wf(),
        witness.committee == aggregator.committee,
        certificate.sequence_number == witness.sequence_number + 1,
        certificate_step(witness, certificate, witness_after, reply),
    ensures
        reply == Ok::<State, WitnessError>(
            State {
                root: certificate.root,
                sequence_number: certificate.sequence_number,
                lock: None,
            },
        ),
        witness_after.state() == reply->Ok_0,
        witness_after.archived(certificate.sequence_number) == Some(certificate),
{
    lemma_emitted_certificate_valid(aggregator, vote, aggregator_after, certificate);
}

/// Recovery. A witness that is brought back from its own pending vote and
/// archive is the witness that persisted them.
pub proof fn lemma_restart_brings_back(witness: WitnessView, keypair: KeyPair)
    requires
        witness.wf(),
        keypair.secret == witness.secret,
    ensures
        restored(
            witness.id,
            keypair,
            witness.publisher,
            witness.committee,
            witness.pending,
            witness.archive,
        ) == witness,
{
}

} // verus!
