//! The state machine of one witness: it votes for notifications, commits
//! certificates and answers synchronization queries from what it committed.

use crate::config::{Committee, WitnessId};
use crate::crypto::{signature_of, KeyPair, PublicKey, SecretKey};
use crate::encoding::same_bytes;
use crate::error::WitnessError;
use crate::messages::{
    certificate_verdict, genesis, genesis_root, publisher_signed, signed_bytes, CertificateView,
    IdPToWitnessMessage, NotificationView, PublishCertificate, PublishNotification, PublishVote,
    ReplyView, RequestView, Root, SequenceNumber, State, WitnessToIdPMessage,
};
use vstd::prelude::*;

verus! {

/// A witness as a mathematical value: who it is, whom it trusts, what it has
/// committed, the vote it has given for the next sequence number, and every
/// certificate it has committed, in order.
pub struct WitnessView {
    pub id: WitnessId,
    pub secret: SecretKey,
    pub publisher: PublicKey,
    pub committee: Committee,
    pub root: Root,
    pub sequence_number: SequenceNumber,
    pub pending: Option<PublishVote>,
    pub archive: Seq<CertificateView>,
}

impl WitnessView {
    /// The sequence number that the witness has voted for and not yet seen
    /// certified.
    pub open spec fn lock(self) -> Option<SequenceNumber> {
        match self.pending {
            Some(vote) => Some(vote.sequence_number),
            None => None,
        }
    }

    /// What a state query is answered with.
    pub open spec fn state(self) -> State {
        State { root: self.root, sequence_number: self.sequence_number, lock: self.lock() }
    }

    /// The certificate archived for a sequence number, if one was committed.
    pub open spec fn archived(self, sequence_number: SequenceNumber) -> Option<CertificateView> {
        if 1 <= sequence_number <= self.archive.len() {
            Some(self.archive[sequence_number - 1])
        } else {
            None
        }
    }

    /// The invariant of a witness. The archive holds one valid certificate
    /// for each sequence number from 1 to the committed one, the committed
    /// root is that of the last certificate (the genesis root before the
    /// first), and a pending vote is the witness's own vote for the next
    /// sequence number.
    pub open spec fn wf(self) -> bool {
        &&& self.archive.len() == self.sequence_number
        &&& forall|i: int|
            0 <= i < self.archive.len() ==> (#[trigger] self.archive[i]).sequence_number == i + 1
                && self.archive[i].valid(&self.committee)
        &&& self.sequence_number == 0 ==> self.root == genesis_root()
        &&& self.sequence_number > 0 ==> self.root == self.archive.last().root
        &&& match self.pending {
            Some(vote) => vote.sequence_number == self.sequence_number + 1 && vote.author
                == self.id,
            None => true,
        }
    }

    /// A witness that has committed nothing and voted for nothing.
    pub open spec fn initial(self) -> bool {
        &&& self.root == genesis_root()
        &&& self.sequence_number == 0
        &&& self.pending is None
        &&& self.archive.len() == 0
    }

    /// Whether `vote` is this witness's vote for `root` at `sequence_number`.
    pub open spec fn own_vote(self, vote: PublishVote, root: Root, sequence_number: SequenceNumber) -> bool {
        &&& vote.root == root
        &&& vote.sequence_number == sequence_number
        &&& vote.author == self.id
        &&& vote.signature@ == signature_of(self.secret@, signed_bytes(root, sequence_number))
    }
}

/// What a witness does with a notification.
#[derive(Clone, Copy, Debug, PartialEq, Eq)]
pub enum NotificationDecision {
    /// It rejects the notification with this error.
    Reject(WitnessError),
    /// It sends the vote again that it gave before.
    Resend(PublishVote),
    /// It votes for the notification and locks on it.
    Vote,
}

/// What a witness in state `pre` does with a notification for `root` at
/// `sequence_number`, given whether the publisher's signature holds
/// (`signed`) and whether the audit proof holds (`proof_verified`).
///
/// A notification for any sequence number but the next is stale or from the
/// future. While a vote is pending, the same root gets the stored vote again
/// and another root is an equivocation. Otherwise the publisher's signature
/// and then the proof must hold for the witness to vote.
pub open spec fn notification_decision(
    pre: WitnessView,
    root: Root,
    sequence_number: SequenceNumber,
    signed: bool,
    proof_verified: bool,
) -> NotificationDecision {
    if sequence_number != pre.sequence_number + 1 {
        NotificationDecision::Reject(WitnessError::StaleOrFutureSequence)
    } else if let Some(vote) = pre.pending {
        if vote.root == root {
            NotificationDecision::Resend(vote)
        } else {
            NotificationDecision::Reject(WitnessError::Equivocation)
        }
    } else if !signed {
        NotificationDecision::Reject(WitnessError::InvalidSignature)
    } else if !proof_verified {
        NotificationDecision::Reject(WitnessError::InvalidProof)
    } else {
        NotificationDecision::Vote
    }
}

/// How a witness in state `pre` handles a notification, given the outcome
/// `proof_verified` of checking the audit proof for the transition from the
/// committed root to the notification's root: the state `post` it is in
/// afterwards and its reply.
///
/// The witness decides as `notification_decision` says, with the publisher's
/// signature checked against the known publisher. Only a vote changes the
/// state: the witness locks on its own new vote.
pub open spec fn notification_step(
    pre: WitnessView,
    notification: NotificationView,
    proof_verified: bool,
    post: WitnessView,
    reply: Result<PublishVote, WitnessError>,
) -> bool {
    match notification_decision(
        pre,
        notification.root,
        notification.sequence_number,
        publisher_signed(
            pre.publisher,
            notification.root,
            notification.sequence_number,
            notification.author,
            notification.signature,
        ),
        proof_verified,
    ) {
        NotificationDecision::Reject(error) => post == pre && reply == Err::<
            PublishVote,
            WitnessError,
        >(error),
        NotificationDecision::Resend(vote) => post == pre && reply == Ok::<
            PublishVote,
            WitnessError,
        >(vote),
        NotificationDecision::Vote => match reply {
            Ok(vote) => pre.own_vote(vote, notification.root, notification.sequence_number)
                && post == (WitnessView { pending: Some(vote), ..pre }),
            Err(_) => false,
        },
    }
}

/// How a witness in state `pre` handles a certificate: the state `post` it is
/// in afterwards and its reply.
///
/// The certificate must be for the next sequence number and valid for the
/// committee, whether or not the witness voted itself. Committing it makes
/// its root the committed one, releases the lock and archives it; a rejected
/// certificate changes nothing.
pub open spec fn certificate_step(
    pre: WitnessView,
    certificate: CertificateView,
    post: WitnessView,
    reply: Result<State, WitnessError>,
) -> bool {
    if certificate.sequence_number != pre.sequence_number + 1 {
        post == pre && reply == Err::<State, WitnessError>(WitnessError::StaleOrFutureSequence)
    } else {
        match certificate_verdict(certificate, &pre.committee) {
            Err(error) => post == pre && reply == Err::<State, WitnessError>(error),
            Ok(_) => post == (WitnessView {
                root: certificate.root,
                sequence_number: certificate.sequence_number,
                pending: None,
                archive: pre.archive.push(certificate),
                ..pre
            }) && reply == Ok::<State, WitnessError>(post.state()),
        }
    }
}

/// The transition whose audit proof decides how a witness in state `pre`
/// answers a notification: from the committed root to the notification's
/// root. There is none where the answer is settled without the proof.
pub open spec fn proof_needed(pre: WitnessView, notification: NotificationView) -> Option<(Root, Root)> {
    if notification.sequence_number == pre.sequence_number + 1 && pre.pending is None
        && publisher_signed(
        pre.publisher,
        notification.root,
        notification.sequence_number,
        notification.author,
        notification.signature,
    ) {
        Some((pre.root, notification.root))
    } else {
        None
    }
}

/// How a witness in state `pre` handles a message: the state `post` it is in
/// afterwards and its reply. Queries are answered from the committed state
/// and change nothing.
pub open spec fn message_step(
    pre: WitnessView,
    request: RequestView,
    proof_verified: bool,
    post: WitnessView,
    reply: ReplyView,
) -> bool {
    match request {
        RequestView::PublishNotification(notification) => match reply {
            ReplyView::PublishVote(vote) => notification_step(
                pre,
                notification,
                proof_verified,
                post,
                vote,
            ),
            _ => false,
        },
        RequestView::PublishCertificate(certificate) => match reply {
            ReplyView::State(state) => certificate_step(pre, certificate, post, state),
            _ => false,
        },
        RequestView::StateQuery => post == pre && reply == ReplyView::State(Ok(pre.state())),
        RequestView::PublishCertificateQuery(query) => post == pre && reply
            == ReplyView::PublishCertificateResponse(
            match pre.archived(query.sequence_number) {
                Some(certificate) => Ok(certificate),
                None => Err(WitnessError::UnknownSequence),
            },
        ),
    }
}

/// The stored vote that is still pending once `committed` certificates are
/// archived: a vote for a sequence number that has been committed since is
/// not.
pub open spec fn still_pending(pending: Option<PublishVote>, committed: nat) -> Option<PublishVote> {
    match pending {
        Some(vote) => if vote.sequence_number > committed {
            Some(vote)
        } else {
            None
        },
        None => None,
    }
}

/// The witness that a restart brings back from what was persisted: the
/// archive decides the committed root and sequence number, and a stored vote
/// that a commit has overtaken is dropped.
pub open spec fn restored(
    id: WitnessId,
    keypair: KeyPair,
    publisher: PublicKey,
    committee: Committee,
    pending: Option<PublishVote>,
    archive: Seq<CertificateView>,
) -> WitnessView {
    WitnessView {
        id,
        secret: keypair.secret,
        publisher,
        committee,
        root: if archive.len() == 0 {
            genesis_root()
        } else {
            archive.last().root
        },
        sequence_number: archive.len() as u64,
        pending: still_pending(pending, archive.len()),
        archive,
    }
}

/// One witness.
pub struct Witness {
    id: WitnessId,
    keypair: KeyPair,
    publisher: PublicKey,
    committee: Committee,
    root: Root,
    sequence_number: SequenceNumber,
    pending: Option<PublishVote>,
    archive: Vec<PublishCertificate>,
}

impl View for Witness {
    type V = WitnessView;

    closed spec fn view(&self) -> WitnessView {
        WitnessView {
            id: self.id,
            secret: self.keypair.secret,
            publisher: self.publisher,
            committee: self.committee,
            root: self.root,
            sequence_number: self.sequence_number,
            pending: self.pending,
            archive: self.archive@.map_values(|certificate: PublishCertificate| certificate@),
        }
    }
}

impl Witness {
    /// A witness that has committed nothing: its root is the genesis root,
    /// its sequence number 0, and it holds no lock.
    pub fn new(id: WitnessId, keypair: KeyPair, publisher: PublicKey, committee: Committee) -> (witness: Witness)
        ensures
            witness@.wf(),
            witness@.initial(),
            witness@.id == id,
            witness@.secret == keypair.secret,
            witness@.publisher == publisher,
            witness@.committee == committee,
    {
        let witness = Witness {
            id,
            keypair,
            publisher,
            committee,
            root: genesis(),
            sequence_number: 0,
            pending: None,
            archive: Vec::new(),
        };
        witness
    }

    /// Brings a witness back from what it persisted: the vote it had given
    /// last, and the certificates it had committed. A vote that a commit has
    /// overtaken is dropped. What was persisted is checked again, every
    /// certificate included; where it does not make a well-formed witness
    /// there is none.
    pub fn restore(
        id: WitnessId,
        keypair: KeyPair,
        publisher: PublicKey,
        committee: Committee,
        pending: Option<PublishVote>,
        archive: Vec<PublishCertificate>,
    ) -> (witness: Option<Witness>)
        ensures
            match witness {
                Some(witness) => witness@.wf() && witness@ == restored(
                    id,
                    keypair,
                    publisher,
                    committee,
                    pending,
                    archive@.map_values(|certificate: PublishCertificate| certificate@),
                ),
                None => !restored(
                    id,
                    keypair,
                    publisher,
                    committee,
                    pending,
                    archive@.map_values(|certificate: PublishCertificate| certificate@),
                ).wf(),
            },
    {
        let ghost views = archive@.map_values(|certificate: PublishCertificate| certificate@);
        let ghost target = restored(id, keypair, publisher, committee, pending, views);
        let count: u64 = archive.len() as u64;
        let kept = match pending {
            Some(vote) => if vote.sequence_number > count {
                Some(vote)
            } else {
                None
            },
            None => None,
        };
        if let Some(vote) = kept {
            if vote.sequence_number - 1 != count || vote.author != id {
                return None;
            }
        }
        let mut i: usize = 0;
        while i < archive.len()
            invariant
                i <= archive@.len(),
                views == archive@.map_values(|certificate: PublishCertificate| certificate@),
                target == restored(id, keypair, publisher, committee, pending, views),
                forall|k: int|
                    0 <= k < i ==> (#[trigger] views[k]).sequence_number == k + 1
                        && views[k].valid(&committee),
            decreases archive@.len() - i,
        {
            let ghost certificate = views[i as int];
            assert(certificate == archive@[i as int]@);
            if archive[i].sequence_number != i as u64 + 1 {
                assert(!target.wf()) by {
                    assert(target.archive[i as int].sequence_number != i + 1);
                }
                return None;
            }
            if archive[i].verify(&committee).is_err() {
                assert(!target.wf()) by {
                    assert(!target.archive[i as int].valid(&target.committee));
                }
                return None;
            }
            i += 1;
        }
        let root = if archive.len() == 0 {
            genesis()
        } else {
            archive[archive.len() - 1].root
        };
        let witness = Witness {
            id,
            keypair,
            publisher,
            committee,
            root,
            sequence_number: count,
            pending: kept,
            archive,
        };
        assert(witness@ == target);
        Some(witness)
    }

    /// The certificates that the witness has committed, in order: what a
    /// restart needs besides the pending vote.
    pub fn archive(&self) -> (archive: &Vec<PublishCertificate>)
        ensures
            archive@.map_values(|certificate: PublishCertificate| certificate@) == self@.archive,
    {
        &self.archive
    }

    /// The identity of the witness.
    pub fn id(&self) -> (id: WitnessId)
        ensures
            id == self@.id,
    {
        self.id
    }

    /// The committee that the witness belongs to.
    pub fn committee(&self) -> (committee: &Committee)
        ensures
            *committee == self@.committee,
    {
        &self.committee
    }

    /// The vote that the witness has given and not yet seen certified.
    pub fn pending_vote(&self) -> (vote: Option<PublishVote>)
        ensures
            vote == self@.pending,
    {
        self.pending
    }

    /// Answers a state query: the committed root and sequence number, and
    /// the sequence number that the witness is locked on. Nothing changes.
    pub fn state(&self) -> (state: State)
        ensures
            state == self@.state(),
    {
        let lock = match self.pending {
            Some(vote) => Some(vote.sequence_number),
            None => None,
        };
        State { root: self.root, sequence_number: self.sequence_number, lock }
    }

    /// Answers a certificate query: the certificate committed for
    /// `sequence_number`, or `UnknownSequence` where none was. Nothing changes.
    pub fn certificate(&self, sequence_number: SequenceNumber) -> (found: Result<&PublishCertificate, WitnessError>)
        ensures
            match found {
                Ok(certificate) => self@.archived(sequence_number) == Some(certificate@),
                Err(error) => error == WitnessError::UnknownSequence && self@.archived(
                    sequence_number,
                ) is None,
            },
    {
        if sequence_number == 0 || sequence_number > self.archive.len() as u64 {
            return Err(WitnessError::UnknownSequence);
        }
        let index: usize = (sequence_number - 1) as usize;
        Ok(&self.archive[index])
    }

    /// Decides what to do with a notification for `root` at
    /// `sequence_number`, given whether the publisher's signature holds and
    /// whether the audit proof holds. Nothing changes.
    pub fn decide(&self, root: &Root, sequence_number: SequenceNumber, signed: bool, proof_verified: bool) -> (decision: NotificationDecision)
        ensures
            decision == notification_decision(
                self@,
                *root,
                sequence_number,
                signed,
                proof_verified,
            ),
    {
        if self.sequence_number == u64::MAX || sequence_number != self.sequence_number + 1 {
            return NotificationDecision::Reject(WitnessError::StaleOrFutureSequence);
        }
        if let Some(vote) = self.pending {
            if same_bytes(&vote.root, root) {
                return NotificationDecision::Resend(vote);
            }
            return NotificationDecision::Reject(WitnessError::Equivocation);
        }
        if !signed {
            return NotificationDecision::Reject(WitnessError::InvalidSignature);
        }
        if !proof_verified {
            return NotificationDecision::Reject(WitnessError::InvalidProof);
        }
        NotificationDecision::Vote
    }

    /// Handles a notification. `proof_verified` is the outcome of checking
    /// the notification's audit proof for the transition from the committed
    /// root to the notification's root; it is read only where the witness is
    /// unlocked and the publisher's signature holds. The signature is
    /// checked only where the answer depends on it.
    ///
    /// The caller persists the witness before it sends an `Ok` reply.
    pub fn handle_notification(&mut self, notification: &PublishNotification, proof_verified: bool) -> (reply: Result<PublishVote, WitnessError>)
        requires
            old(self)@.wf(),
        ensures
            final(self)@.wf(),
            notification_step(old(self)@, notification@, proof_verified, final(self)@, reply),
    {
        let awaited = self.pending.is_none() && self.sequence_number != u64::MAX
            && notification.sequence_number == self.sequence_number + 1;
        let signed = awaited && notification.is_signed_by(&self.publisher);
        match self.decide(
            &notification.root,
            notification.sequence_number,
            signed,
            proof_verified,
        ) {
            NotificationDecision::Reject(error) => Err(error),
            NotificationDecision::Resend(vote) => Ok(vote),
            NotificationDecision::Vote => {
                let vote = PublishVote::new(
                    notification.root,
                    notification.sequence_number,
                    self.id,
                    &self.keypair.secret,
                );
                self.pending = Some(vote);
                Ok(vote)
            },
        }
    }

    /// Handles a certificate: commits it where it is for the next sequence
    /// number and valid for the committee, and replies with the new state.
    ///
    /// The caller persists the witness before it sends an `Ok` reply.
    pub fn handle_certificate(&mut self, certificate: PublishCertificate) -> (reply: Result<State, WitnessError>)
        requires
            old(self)@.wf(),
        ensures
            final(self)@.wf(),
            certificate_step(old(self)@, certificate@, final(self)@, reply),
    {
        if self.sequence_number == u64::MAX || certificate.sequence_number != self.sequence_number
            + 1 {
            return Err(WitnessError::StaleOrFutureSequence);
        }
        match certificate.verify(&self.committee) {
            Err(error) => {
                return Err(error);
            },
            Ok(_) => {},
        }
        let ghost before = self@;
        self.root = certificate.root;
        self.sequence_number = certificate.sequence_number;
        self.pending = None;
        self.archive.push(certificate);
        proof {
            assert(self@.archive =~= before.archive.push(certificate@));
        }
        Ok(self.state())
    }

    /// The transition whose audit proof the caller has to check before it
    /// hands the notification to `handle_notification`: from the committed
    /// root to the notification's root. `None` where the answer to the
    /// notification does not depend on the proof.
    pub fn proof_to_check(&self, notification: &PublishNotification) -> (transition: Option<(Root, Root)>)
        ensures
            transition == proof_needed(self@, notification@),
    {
        if self.sequence_number == u64::MAX || notification.sequence_number
            != self.sequence_number + 1 {
            return None;
        }
        if self.pending.is_some() {
            return None;
        }
        if !notification.is_signed_by(&self.publisher) {
            return None;
        }
        Some((self.root, notification.root))
    }

    /// Handles a message of the protocol and gives the reply to send back.
    /// `proof_verified` is read for a notification only, as
    /// `handle_notification` reads it.
    pub fn handle_message(&mut self, request: IdPToWitnessMessage, proof_verified: bool) -> (reply: WitnessToIdPMessage)
        requires
            old(self)@.wf(),
        ensures
            final(self)@.wf(),
            message_step(old(self)@, request@, proof_verified, final(self)@, reply@),
    {
        match request {
            IdPToWitnessMessage::PublishNotification(notification) => {
                WitnessToIdPMessage::PublishVote(
                    self.handle_notification(&notification, proof_verified),
                )
            },
            IdPToWitnessMessage::PublishCertificate(certificate) => {
                WitnessToIdPMessage::State(self.handle_certificate(certificate))
            },
            IdPToWitnessMessage::StateQuery => WitnessToIdPMessage::State(Ok(self.state())),
            IdPToWitnessMessage::PublishCertificateQuery(query) => {
                match self.certificate(query.sequence_number) {
                    Ok(certificate) => WitnessToIdPMessage::PublishCertificateResponse(
                        Ok(certificate.copy()),
                    ),
                    Err(error) => WitnessToIdPMessage::PublishCertificateResponse(Err(error)),
                }
            },
        }
    }
}

/// Where no proof is needed, the outcome of the proof check is not read: the
/// witness answers a notification in the same way whatever it is.
pub proof fn lemma_proof_unread(
    pre: WitnessView,
    notification: NotificationView,
    post: WitnessView,
    reply: Result<PublishVote, WitnessError>,
)
    requires
        proof_needed(pre, notification) is None,
    ensures
        notification_step(pre, notification, true, post, reply) == notification_step(
            pre,
            notification,
            false,
            post,
            reply,
        ),
{
}

} // verus!
