//! The messages of the protocol and what makes each of them valid.

use crate::config::{Committee, WitnessId};
use crate::crypto::{check_signature, make_signature, signature_of, signature_valid, KeyPair, PublicKey, SecretKey, Signature};
use crate::encoding::{append_bytes, same_bytes};
use crate::error::WitnessError;
use vstd::array::{array_fill_for_copy_types, spec_array_fill_for_copy_type};
use vstd::bytes::{spec_u64_to_le_bytes, u64_to_le_bytes};
use vstd::prelude::*;

verus! {

/// The digest of one snapshot of the directory.
pub type Root = [u8; 32];

/// The number of a snapshot; 0 is the state before the first publication.
pub type SequenceNumber = u64;

/// The root of the directory before anything was published.
pub open spec fn genesis_root() -> Root {
    spec_array_fill_for_copy_type(0u8)
}

/// The root of the directory before anything was published: 32 zero bytes.
pub fn genesis() -> (root: Root)
    ensures
        root == genesis_root(),
        forall|i: int| 0 <= i < 32 ==> root@[i] == 0u8,
{
    array_fill_for_copy_types(0u8)
}

/// The bytes that publisher and witnesses sign for a root at a sequence
/// number: the root followed by the number in little-endian order.
pub open spec fn signed_bytes(root: Root, sequence_number: SequenceNumber) -> Seq<u8> {
    root@ + spec_u64_to_le_bytes(sequence_number)
}

/// Builds the bytes that are signed for a root at a sequence number.
pub fn signing_input(root: &Root, sequence_number: SequenceNumber) -> (out: Vec<u8>)
    ensures
        out@ == signed_bytes(*root, sequence_number),
{
    let mut out: Vec<u8> = Vec::new();
    append_bytes(&mut out, root.as_slice());
    let number = u64_to_le_bytes(sequence_number);
    append_bytes(&mut out, number.as_slice());
    assert(Seq::<u8>::empty() + root@ =~= root@);
    out
}

/// A publisher's claim that the directory advanced to `root` at
/// `sequence_number`, with the audit proof of the transition.
#[derive(Clone, Debug, PartialEq, Eq)]
pub struct PublishNotification {
    pub root: Root,
    pub proof: Vec<u8>,
    pub sequence_number: SequenceNumber,
    pub signature: Signature,
    pub author: PublicKey,
}

/// One witness's signed attestation that it verified a notification.
#[derive(Clone, Copy, Debug, PartialEq, Eq)]
pub struct PublishVote {
    pub root: Root,
    pub sequence_number: SequenceNumber,
    pub author: WitnessId,
    pub signature: Signature,
}

/// Votes of a quorum for one root at one sequence number.
#[derive(Clone, Debug, PartialEq, Eq)]
pub struct PublishCertificate {
    pub root: Root,
    pub sequence_number: SequenceNumber,
    pub votes: Vec<(WitnessId, Signature)>,
}

/// What a witness has committed, and the sequence number it has voted for
/// without having seen the certificate yet.
#[derive(Clone, Copy, Debug, PartialEq, Eq)]
pub struct State {
    pub root: Root,
    pub sequence_number: SequenceNumber,
    pub lock: Option<SequenceNumber>,
}

/// A request for the certificate archived for a sequence number.
#[derive(Clone, Copy, Debug, PartialEq, Eq)]
pub struct PublishCertificateQuery {
    pub sequence_number: SequenceNumber,
}

/// A notification as a mathematical value.
pub struct NotificationView {
    pub root: Root,
    pub proof: Seq<u8>,
    pub sequence_number: SequenceNumber,
    pub signature: Signature,
    pub author: PublicKey,
}

/// A certificate as a mathematical value.
pub struct CertificateView {
    pub root: Root,
    pub sequence_number: SequenceNumber,
    pub votes: Seq<(WitnessId, Signature)>,
}

impl View for PublishNotification {
    type V = NotificationView;

    open spec fn view(&self) -> NotificationView {
        NotificationView {
            root: self.root,
            proof: self.proof@,
            sequence_number: self.sequence_number,
            signature: self.signature,
            author: self.author,
        }
    }
}

impl View for PublishCertificate {
    type V = CertificateView;

    open spec fn view(&self) -> CertificateView {
        CertificateView { root: self.root, sequence_number: self.sequence_number, votes: self.votes@ }
    }
}

/// Whether `signature` is the publisher's signature for `root` at
/// `sequence_number`, the publisher being known by its key.
pub open spec fn publisher_signed(
    publisher: PublicKey,
    root: Root,
    sequence_number: SequenceNumber,
    author: PublicKey,
    signature: Signature,
) -> bool {
    author == publisher && signature_valid(signed_bytes(root, sequence_number), signature@, publisher@)
}

/// Whether `signature` is a vote of committee member `author` for `root` at
/// `sequence_number`.
pub open spec fn witness_signed(
    committee: &Committee,
    root: Root,
    sequence_number: SequenceNumber,
    author: WitnessId,
    signature: Signature,
) -> bool {
    match committee.key_of(author) {
        Some(key) => signature_valid(signed_bytes(root, sequence_number), signature@, key@),
        None => false,
    }
}

/// The witnesses that have an entry among `votes`.
pub open spec fn authors(votes: Seq<(WitnessId, Signature)>) -> Set<WitnessId> {
    Set::new(|id: WitnessId| exists|i: int| 0 <= i < votes.len() && votes[i].0 == id)
}

/// Whether no witness has two entries among `votes`.
pub open spec fn distinct_authors(votes: Seq<(WitnessId, Signature)>) -> bool {
    forall|i: int, j: int| 0 <= i < j < votes.len() ==> votes[i].0 != votes[j].0
}

/// Whether every entry of `votes` is a vote of a committee member for `root`
/// at `sequence_number`.
pub open spec fn all_signed(
    committee: &Committee,
    root: Root,
    sequence_number: SequenceNumber,
    votes: Seq<(WitnessId, Signature)>,
) -> bool {
    forall|i: int|
        0 <= i < votes.len() ==> witness_signed(
            committee,
            root,
            sequence_number,
            #[trigger] votes[i].0,
            votes[i].1,
        )
}

impl CertificateView {
    /// Whether the votes come from at least a quorum of distinct witnesses.
    pub open spec fn has_quorum(self, committee: &Committee) -> bool {
        authors(self.votes).len() >= committee.quorum_threshold
    }

    /// Whether the certificate is valid for the committee: a quorum of
    /// distinct witnesses voted, and every vote verifies under the key of its
    /// author for this root and sequence number.
    pub open spec fn valid(self, committee: &Committee) -> bool {
        self.has_quorum(committee) && all_signed(
            committee,
            self.root,
            self.sequence_number,
            self.votes,
        )
    }
}

impl PublishNotification {
    /// A notification for `root` at `sequence_number`, signed with the
    /// publisher's key pair.
    pub fn new(root: Root, proof: Vec<u8>, sequence_number: SequenceNumber, keypair: &KeyPair) -> (notification: PublishNotification)
        ensures
            notification.root == root,
            notification.proof == proof,
            notification.sequence_number == sequence_number,
            notification.author == keypair.public,
            notification.signature@ == signature_of(
                keypair.secret@,
                signed_bytes(root, sequence_number),
            ),
    {
        let input = signing_input(&root, sequence_number);
        let signature = make_signature(&keypair.secret, &input);
        PublishNotification { root, proof, sequence_number, signature, author: keypair.public }
    }

    /// Whether the notification names `publisher` as its author and carries
    /// the publisher's signature for its root and sequence number.
    pub fn is_signed_by(&self, publisher: &PublicKey) -> (signed: bool)
        ensures
            signed == publisher_signed(
                *publisher,
                self.root,
                self.sequence_number,
                self.author,
                self.signature,
            ),
    {
        if !same_bytes(&self.author, publisher) {
            return false;
        }
        let input = signing_input(&self.root, self.sequence_number);
        check_signature(&input, &self.signature, publisher)
    }
}

impl PublishVote {
    /// The vote of witness `author` for `root` at `sequence_number`, signed
    /// with the witness's secret key.
    pub fn new(root: Root, sequence_number: SequenceNumber, author: WitnessId, secret: &SecretKey) -> (vote: PublishVote)
        ensures
            vote.root == root,
            vote.sequence_number == sequence_number,
            vote.author == author,
            vote.signature@ == signature_of(secret@, signed_bytes(root, sequence_number)),
    {
        let input = signing_input(&root, sequence_number);
        let signature = make_signature(secret, &input);
        PublishVote { root, sequence_number, author, signature }
    }

    /// Whether the vote verifies under the key that the committee lists for
    /// its author.
    pub fn is_signed_by(&self, committee: &Committee) -> (signed: bool)
        ensures
            signed == witness_signed(
                committee,
                self.root,
                self.sequence_number,
                self.author,
                self.signature,
            ),
    {
        match committee.public_key(self.author) {
            Some(key) => {
                let input = signing_input(&self.root, self.sequence_number);
                check_signature(&input, &self.signature, &key)
            },
            None => false,
        }
    }
}


/// The outcome of checking a certificate, given the number of distinct
/// witnesses among its votes, the quorum threshold, and whether every vote
/// verifies: too few voters is reported before a vote that does not verify.
pub open spec fn quorum_verdict_of(voters: nat, threshold: u64, signed: bool) -> Result<(), WitnessError> {
    if voters < threshold {
        Err(WitnessError::InsufficientVotes)
    } else if !signed {
        Err(WitnessError::InvalidSignature)
    } else {
        Ok(())
    }
}

/// The outcome of checking a certificate against a committee.
pub open spec fn certificate_verdict(certificate: CertificateView, committee: &Committee) -> Result<(), WitnessError> {
    quorum_verdict_of(
        authors(certificate.votes).len(),
        committee.quorum_threshold,
        all_signed(committee, certificate.root, certificate.sequence_number, certificate.votes),
    )
}

/// The outcome of checking a certificate with `voters` distinct voters
/// against a quorum threshold, `signed` saying whether every vote verifies.
pub fn quorum_verdict(voters: usize, threshold: u64, signed: bool) -> (outcome: Result<(), WitnessError>)
    ensures
        outcome == quorum_verdict_of(voters as nat, threshold, signed),
{
    if (voters as u64) < threshold {
        Err(WitnessError::InsufficientVotes)
    } else if !signed {
        Err(WitnessError::InvalidSignature)
    } else {
        Ok(())
    }
}

/// The authors of no votes are no witnesses.
pub proof fn lemma_authors_empty()
    ensures
        authors(Seq::<(WitnessId, Signature)>::empty()) == Set::<WitnessId>::empty(),
{
    assert(authors(Seq::<(WitnessId, Signature)>::empty()) =~= Set::<WitnessId>::empty());
}

/// One more vote adds its author to the authors, and the authors of finitely
/// many votes are finitely many.
pub proof fn lemma_authors_push(votes: Seq<(WitnessId, Signature)>, vote: (WitnessId, Signature))
    ensures
        authors(votes.push(vote)) == authors(votes).insert(vote.0),
        authors(votes).finite(),
    decreases votes.len(),
{
    let longer = votes.push(vote);
    assert forall|id: WitnessId| authors(longer).contains(id) <==> authors(votes).insert(
        vote.0,
    ).contains(id) by {
        if authors(longer).contains(id) {
            let i = choose|i: int| 0 <= i < longer.len() && longer[i].0 == id;
            if i < votes.len() {
                assert(votes[i].0 == id);
            }
        }
        if authors(votes).contains(id) {
            let i = choose|i: int| 0 <= i < votes.len() && votes[i].0 == id;
            assert(longer[i].0 == id);
        }
        if id == vote.0 {
            assert(longer[votes.len() as int].0 == id);
        }
    }
    assert(authors(longer) =~= authors(votes).insert(vote.0));
    if votes.len() == 0 {
        assert(authors(votes) =~= Set::<WitnessId>::empty());
    } else {
        lemma_authors_push(votes.drop_last(), votes.last());
        assert(votes.drop_last().push(votes.last()) =~= votes);
    }
}

/// Where no witness voted twice, there are as many authors as votes.
pub proof fn lemma_distinct_authors_count(votes: Seq<(WitnessId, Signature)>)
    requires
        distinct_authors(votes),
    ensures
        authors(votes).finite(),
        authors(votes).len() == votes.len(),
    decreases votes.len(),
{
    if votes.len() == 0 {
        lemma_authors_empty();
        assert(votes =~= Seq::<(WitnessId, Signature)>::empty());
    } else {
        let shorter = votes.drop_last();
        lemma_distinct_authors_count(shorter);
        lemma_authors_push(shorter, votes.last());
        assert(shorter.push(votes.last()) =~= votes);
        if authors(shorter).contains(votes.last().0) {
            let i = choose|i: int| 0 <= i < shorter.len() && shorter[i].0 == votes.last().0;
            assert(votes[i].0 == votes[votes.len() - 1].0);
        }
    }
}

/// Whether witness `id` has an entry among the first `end` votes.
pub fn has_voted(votes: &Vec<(WitnessId, Signature)>, end: usize, id: WitnessId) -> (found: bool)
    requires
        end <= votes@.len(),
    ensures
        found == authors(votes@.take(end as int)).contains(id),
{
    let mut i: usize = 0;
    while i < end
        invariant
            i <= end <= votes@.len(),
            forall|j: int| 0 <= j < i ==> votes@[j].0 != id,
        decreases end - i,
    {
        if votes[i].0 == id {
            assert(votes@.take(end as int)[i as int].0 == id);
            return true;
        }
        i += 1;
    }
    assert(!authors(votes@.take(end as int)).contains(id)) by {
        if authors(votes@.take(end as int)).contains(id) {
            let j = choose|j: int| 0 <= j < votes@.take(end as int).len() && votes@.take(end as int)[j].0 == id;
            assert(votes@[j].0 == id);
        }
    }
    false
}

/// The number of distinct witnesses that have an entry among `votes`.
pub fn count_authors(votes: &Vec<(WitnessId, Signature)>) -> (count: usize)
    ensures
        authors(votes@).finite(),
        count == authors(votes@).len(),
{
    let mut count: usize = 0;
    let mut i: usize = 0;
    proof {
        lemma_authors_empty();
        assert(votes@.take(0) =~= Seq::<(WitnessId, Signature)>::empty());
    }
    while i < votes.len()
        invariant
            i <= votes@.len(),
            count <= i,
            authors(votes@.take(i as int)).finite(),
            count == authors(votes@.take(i as int)).len(),
        decreases votes@.len() - i,
    {
        let seen = has_voted(votes, i, votes[i].0);
        proof {
            lemma_authors_push(votes@.take(i as int), votes@[i as int]);
            assert(votes@.take(i + 1) =~= votes@.take(i as int).push(votes@[i as int]));
        }
        if !seen {
            count += 1;
        }
        i += 1;
    }
    assert(votes@.take(i as int) =~= votes@);
    count
}

impl PublishCertificate {
    /// Whether every vote of the certificate verifies under the key that the
    /// committee lists for its author.
    pub fn votes_signed(&self, committee: &Committee) -> (signed: bool)
        ensures
            signed == all_signed(committee, self.root, self.sequence_number, self.votes@),
    {
        let input = signing_input(&self.root, self.sequence_number);
        let mut i: usize = 0;
        while i < self.votes.len()
            invariant
                i <= self.votes@.len(),
                input@ == signed_bytes(self.root, self.sequence_number),
                forall|j: int|
                    0 <= j < i ==> witness_signed(
                        committee,
                        self.root,
                        self.sequence_number,
                        #[trigger] self.votes@[j].0,
                        self.votes@[j].1,
                    ),
            decreases self.votes@.len() - i,
        {
            let author = self.votes[i].0;
            let signature = self.votes[i].1;
            let signed = match committee.public_key(author) {
                Some(key) => check_signature(&input, &signature, &key),
                None => false,
            };
            if !signed {
                assert(!witness_signed(
                    committee,
                    self.root,
                    self.sequence_number,
                    self.votes@[i as int].0,
                    self.votes@[i as int].1,
                ));
                return false;
            }
            i += 1;
        }
        true
    }

    /// Checks the certificate against the committee: it must carry votes of
    /// at least a quorum of distinct witnesses, and every vote must verify
    /// under the key that the committee lists for its author. The votes are
    /// verified only where there is a quorum of them.
    pub fn verify(&self, committee: &Committee) -> (outcome: Result<(), WitnessError>)
        ensures
            outcome == certificate_verdict(self@, committee),
            outcome is Ok <==> self@.valid(committee),
    {
        let voters = count_authors(&self.votes);
        let signed = voters as u64 >= committee.quorum_threshold && self.votes_signed(committee);
        quorum_verdict(voters, committee.quorum_threshold, signed)
    }

    /// A copy of the certificate.
    pub fn copy(&self) -> (certificate: PublishCertificate)
        ensures
            certificate@ == self@,
    {
        let mut votes: Vec<(WitnessId, Signature)> = Vec::new();
        let mut i: usize = 0;
        while i < self.votes.len()
            invariant
                i <= self.votes@.len(),
                votes@ == self.votes@.take(i as int),
            decreases self.votes@.len() - i,
        {
            votes.push(self.votes[i]);
            assert(self.votes@.take(i + 1) =~= self.votes@.take(i as int).push(self.votes@[i as int]));
            i += 1;
        }
        assert(self.votes@.take(i as int) =~= self.votes@);
        PublishCertificate { root: self.root, sequence_number: self.sequence_number, votes }
    }
}


/// What a publisher or a peer sends to a witness.
#[derive(Clone, Debug, PartialEq, Eq)]
pub enum IdPToWitnessMessage {
    PublishNotification(PublishNotification),
    PublishCertificate(PublishCertificate),
    StateQuery,
    PublishCertificateQuery(PublishCertificateQuery),
}

/// What a witness answers.
#[derive(Debug, PartialEq, Eq)]
pub enum WitnessToIdPMessage {
    PublishVote(Result<PublishVote, WitnessError>),
    State(Result<State, WitnessError>),
    PublishCertificateResponse(Result<PublishCertificate, WitnessError>),
}

/// A message to a witness as a mathematical value.
pub enum RequestView {
    PublishNotification(NotificationView),
    PublishCertificate(CertificateView),
    StateQuery,
    PublishCertificateQuery(PublishCertificateQuery),
}

/// An answer of a witness as a mathematical value.
pub enum ReplyView {
    PublishVote(Result<PublishVote, WitnessError>),
    State(Result<State, WitnessError>),
    PublishCertificateResponse(Result<CertificateView, WitnessError>),
}

impl View for IdPToWitnessMessage {
    type V = RequestView;

    open spec fn view(&self) -> RequestView {
        match self {
            IdPToWitnessMessage::PublishNotification(notification) => RequestView::PublishNotification(
                notification@,
            ),
            IdPToWitnessMessage::PublishCertificate(certificate) => RequestView::PublishCertificate(
                certificate@,
            ),
            IdPToWitnessMessage::StateQuery => RequestView::StateQuery,
            IdPToWitnessMessage::PublishCertificateQuery(query) => RequestView::PublishCertificateQuery(
                *query,
            ),
        }
    }
}

impl View for WitnessToIdPMessage {
    type V = ReplyView;

    open spec fn view(&self) -> ReplyView {
        match self {
            WitnessToIdPMessage::PublishVote(vote) => ReplyView::PublishVote(*vote),
            WitnessToIdPMessage::State(state) => ReplyView::State(*state),
            WitnessToIdPMessage::PublishCertificateResponse(Ok(certificate)) => ReplyView::PublishCertificateResponse(
                Ok(certificate@),
            ),
            WitnessToIdPMessage::PublishCertificateResponse(Err(error)) => ReplyView::PublishCertificateResponse(
                Err(*error),
            ),
        }
    }
}

} // verus!
