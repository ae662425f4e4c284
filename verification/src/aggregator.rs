//! The certificate aggregator: it collects the votes for one proposal and
//! hands out the certificate once a quorum of distinct witnesses has voted.

use crate::buffer::{bytes_from_vec, frozen_bytes};
use crate::codec::{encode_request, request_wire};
use crate::config::{Committee, WitnessId};
use crate::crypto::Signature;
use crate::encoding::same_bytes;
use crate::messages::{
    all_signed, authors, distinct_authors, has_voted, lemma_authors_push,
    lemma_distinct_authors_count, witness_signed, CertificateView, IdPToWitnessMessage,
    PublishCertificate, PublishVote, RequestView, Root, SequenceNumber,
};
use bytes::Bytes;
use vstd::prelude::*;

verus! {

/// An aggregator as a mathematical value: the committee, the proposal that
/// is tracked (set by the first vote that was counted), the votes counted for
/// it so far, and whether its certificate was handed out already.
pub struct GeneratorView {
    pub committee: Committee,
    pub proposal: Option<(Root, SequenceNumber)>,
    pub votes: Seq<(WitnessId, Signature)>,
    pub emitted: bool,
}

impl GeneratorView {
    /// The invariant of an aggregator. Every counted vote is a valid vote of
    /// a distinct committee member for the tracked proposal, and the votes
    /// counted so far are short of a quorum.
    pub open spec fn wf(self) -> bool {
        &&& distinct_authors(self.votes)
        &&& self.votes.len() == 0 || self.votes.len() < self.committee.quorum_threshold
        &&& match self.proposal {
            Some((root, sequence_number)) => all_signed(
                &self.committee,
                root,
                sequence_number,
                self.votes,
            ),
            None => self.votes.len() == 0 && !self.emitted,
        }
        &&& self.emitted ==> self.votes.len() == 0
    }

    /// An aggregator that tracks nothing.
    pub open spec fn cleared(self) -> bool {
        self.proposal is None && self.votes.len() == 0 && !self.emitted
    }

    /// Whether `vote` is for the tracked proposal, or no proposal is
    /// tracked yet.
    pub open spec fn on_proposal(self, vote: PublishVote) -> bool {
        match self.proposal {
            Some((root, sequence_number)) => vote.root == root && vote.sequence_number
                == sequence_number,
            None => true,
        }
    }

    /// Whether `vote` is counted: no certificate was handed out yet, the vote
    /// is for the tracked proposal (or none is tracked), its author has not
    /// been counted, and it verifies under the author's committee key.
    pub open spec fn counts(self, vote: PublishVote) -> bool {
        &&& !self.emitted
        &&& self.on_proposal(vote)
        &&& !authors(self.votes).contains(vote.author)
        &&& witness_signed(
            &self.committee,
            vote.root,
            vote.sequence_number,
            vote.author,
            vote.signature,
        )
    }
}

/// What an aggregator does with a vote.
#[derive(Clone, Copy, Debug, PartialEq, Eq, Structural)]
pub enum Tally {
    /// The vote does not count and nothing changes.
    Ignore,
    /// The vote counts and is kept until there is a quorum.
    Keep,
    /// The vote counts and completes the certificate.
    Complete,
}

/// What an aggregator does with a vote, given whether its certificate was
/// handed out already (`emitted`), whether the vote is for the tracked
/// proposal or none is tracked (`on_proposal`), whether its author was
/// counted before (`repeated`), whether it verifies (`signed`), how many
/// votes were counted so far and the quorum threshold.
///
/// A vote counts where no certificate was handed out, it is for the
/// proposal, its author is new and it verifies. A vote that counts
/// completes the certificate where, with it, the votes reach the threshold.
pub open spec fn tally_of(
    emitted: bool,
    on_proposal: bool,
    repeated: bool,
    signed: bool,
    collected: nat,
    threshold: u64,
) -> Tally {
    if emitted || !on_proposal || repeated || !signed {
        Tally::Ignore
    } else if collected + 1 >= threshold {
        Tally::Complete
    } else {
        Tally::Keep
    }
}

/// What an aggregator does with a vote: see `tally_of`.
pub fn tally(
    emitted: bool,
    on_proposal: bool,
    repeated: bool,
    signed: bool,
    collected: usize,
    threshold: u64,
) -> (decision: Tally)
    ensures
        decision == tally_of(emitted, on_proposal, repeated, signed, collected as nat, threshold),
{
    if emitted || !on_proposal || repeated || !signed {
        Tally::Ignore
    } else if collected as u64 >= threshold || collected as u64 + 1 >= threshold {
        Tally::Complete
    } else {
        Tally::Keep
    }
}

/// How an aggregator in state `pre` takes a vote: the state `post` it is in
/// afterwards and the certificate it hands out, if any.
///
/// A vote that does not count changes nothing. One that counts is added, and
/// where that makes a quorum the certificate holds exactly the counted votes
/// and the aggregator keeps none of them and counts no more.
pub open spec fn vote_step(
    pre: GeneratorView,
    vote: PublishVote,
    post: GeneratorView,
    certificate: Option<CertificateView>,
) -> bool {
    let collected = pre.votes.push((vote.author, vote.signature));
    let proposal = Some((vote.root, vote.sequence_number));
    match tally_of(
        pre.emitted,
        pre.on_proposal(vote),
        authors(pre.votes).contains(vote.author),
        witness_signed(
            &pre.committee,
            vote.root,
            vote.sequence_number,
            vote.author,
            vote.signature,
        ),
        pre.votes.len(),
        pre.committee.quorum_threshold,
    ) {
        Tally::Ignore => post == pre && certificate is None,
        Tally::Keep => {
            &&& certificate is None
            &&& post == (GeneratorView { proposal, votes: collected, ..pre })
        },
        Tally::Complete => {
            &&& certificate == Some(
                CertificateView {
                    root: vote.root,
                    sequence_number: vote.sequence_number,
                    votes: collected,
                },
            )
            &&& post == (GeneratorView {
                proposal,
                votes: Seq::empty(),
                emitted: true,
                ..pre
            })
        },
    }
}

/// The certificate that `vote` completes where it counts and makes a quorum:
/// for the vote's proposal, with the votes counted before and this one.
pub open spec fn completed(pre: GeneratorView, vote: PublishVote) -> CertificateView {
    CertificateView {
        root: vote.root,
        sequence_number: vote.sequence_number,
        votes: pre.votes.push((vote.author, vote.signature)),
    }
}

/// The votes counted so far and one more that counts are valid votes of
/// distinct witnesses for the proposal of that vote, as many as there are
/// entries.
pub proof fn lemma_counted_vote(pre: GeneratorView, vote: PublishVote)
    requires
        pre.wf(),
        pre.counts(vote),
    ensures
        distinct_authors(completed(pre, vote).votes),
        all_signed(&pre.committee, vote.root, vote.sequence_number, completed(pre, vote).votes),
        authors(completed(pre, vote).votes).finite(),
        authors(completed(pre, vote).votes).len() == pre.votes.len() + 1,
        authors(pre.votes).len() == pre.votes.len(),
{
    let collected = completed(pre, vote).votes;
    assert(distinct_authors(collected)) by {
        assert forall|i: int, j: int| 0 <= i < j < collected.len() implies collected[i].0
            != collected[j].0 by {
            if j == pre.votes.len() {
                assert(pre.votes[i].0 == collected[i].0);
            }
        }
    }
    assert(all_signed(&pre.committee, vote.root, vote.sequence_number, collected)) by {
        assert forall|i: int| 0 <= i < collected.len() implies witness_signed(
            &pre.committee,
            vote.root,
            vote.sequence_number,
            #[trigger] collected[i].0,
            collected[i].1,
        ) by {
            if i < pre.votes.len() {
                assert(collected[i] == pre.votes[i]);
            }
        }
    }
    lemma_distinct_authors_count(collected);
    lemma_distinct_authors_count(pre.votes);
}

/// The view of an optional certificate.
pub open spec fn certificate_view(certificate: Option<PublishCertificate>) -> Option<CertificateView> {
    match certificate {
        Some(certificate) => Some(certificate@),
        None => None,
    }
}

/// The votes counted for one proposal.
struct Accumulator {
    proposal: Option<(Root, SequenceNumber)>,
    votes: Vec<(WitnessId, Signature)>,
    emitted: bool,
}

impl Accumulator {
    /// The accumulator as the state of an aggregator for `committee`.
    spec fn view_with(self, committee: Committee) -> GeneratorView {
        GeneratorView {
            committee,
            proposal: self.proposal,
            votes: self.votes@,
            emitted: self.emitted,
        }
    }

    /// An accumulator that has counted nothing.
    fn new() -> (accumulator: Accumulator)
        ensures
            accumulator.proposal is None,
            accumulator.votes@.len() == 0,
            !accumulator.emitted,
    {
        Accumulator { proposal: None, votes: Vec::new(), emitted: false }
    }

    /// Whether `vote` is for the proposal of this accumulator, or it has
    /// none yet.
    fn on_proposal(&self, vote: &PublishVote) -> (on_proposal: bool)
        ensures
            on_proposal == match self.proposal {
                Some((root, sequence_number)) => vote.root == root && vote.sequence_number
                    == sequence_number,
                None => true,
            },
    {
        match self.proposal {
            Some((root, sequence_number)) => same_bytes(&vote.root, &root) && vote.sequence_number
                == sequence_number,
            None => true,
        }
    }

    /// Takes a vote for an aggregator of `committee`.
    fn add_vote(&mut self, committee: &Committee, vote: &PublishVote) -> (certificate: Option<
        PublishCertificate,
    >)
        requires
            old(self).view_with(*committee).wf(),
        ensures
            final(self).view_with(*committee).wf(),
            vote_step(
                old(self).view_with(*committee),
                *vote,
                final(self).view_with(*committee),
                certificate_view(certificate),
            ),
            match certificate {
                Some(certificate) => certificate@.valid(committee),
                None => true,
            },
    {
        let ghost before = self.view_with(*committee);
        assert(self.votes@.take(self.votes@.len() as int) =~= self.votes@);
        let on_proposal = self.on_proposal(vote);
        let repeated = has_voted(&self.votes, self.votes.len(), vote.author);
        let signed = !self.emitted && on_proposal && !repeated && vote.is_signed_by(committee);
        let decision = tally(
            self.emitted,
            on_proposal,
            repeated,
            signed,
            self.votes.len(),
            committee.quorum_threshold,
        );
        match decision {
            Tally::Ignore => None,
            Tally::Keep => {
                proof {
                    lemma_counted_vote(before, *vote);
                }
                self.proposal = Some((vote.root, vote.sequence_number));
                self.votes.push((vote.author, vote.signature));
                None
            },
            Tally::Complete => {
                proof {
                    lemma_counted_vote(before, *vote);
                }
                self.proposal = Some((vote.root, vote.sequence_number));
                self.votes.push((vote.author, vote.signature));
                let mut votes: Vec<(WitnessId, Signature)> = Vec::new();
                std::mem::swap(&mut votes, &mut self.votes);
                self.emitted = true;
                Some(
                    PublishCertificate {
                        root: vote.root,
                        sequence_number: vote.sequence_number,
                        votes,
                    },
                )
            },
        }
    }
}

/// Assembles the certificate of one proposal from votes.
pub struct CertificateGenerator {
    committee: Committee,
    accumulator: Accumulator,
}

impl View for CertificateGenerator {
    type V = GeneratorView;

    closed spec fn view(&self) -> GeneratorView {
        self.accumulator.view_with(self.committee)
    }
}

impl CertificateGenerator {
    /// An aggregator for `committee` that tracks nothing yet.
    pub fn new(committee: Committee) -> (generator: CertificateGenerator)
        ensures
            generator@.wf(),
            generator@.cleared(),
            generator@.committee == committee,
    {
        CertificateGenerator { committee, accumulator: Accumulator::new() }
    }

    /// The committee whose votes are counted.
    pub fn committee(&self) -> (committee: &Committee)
        ensures
            *committee == self@.committee,
    {
        &self.committee
    }

    /// The number of votes counted for the tracked proposal so far.
    pub fn collected(&self) -> (count: usize)
        ensures
            count == self@.votes.len(),
    {
        self.accumulator.votes.len()
    }

    /// Forgets the tracked proposal and its votes.
    pub fn clear(&mut self)
        ensures
            final(self)@.wf(),
            final(self)@.cleared(),
            final(self)@.committee == old(self)@.committee,
    {
        self.accumulator = Accumulator::new();
    }

    /// Whether `vote` is for the tracked proposal, or no proposal is
    /// tracked yet.
    pub fn on_proposal(&self, vote: &PublishVote) -> (on_proposal: bool)
        ensures
            on_proposal == self@.on_proposal(*vote),
    {
        self.accumulator.on_proposal(vote)
    }

    /// Takes a vote. It is counted where it is a valid vote of a committee
    /// member who was not counted yet, for the tracked proposal; the first
    /// vote that counts decides which proposal is tracked. The vote that
    /// completes a quorum is answered with the certificate, once. The vote
    /// is verified only where nothing else keeps it from counting.
    pub fn add_vote(&mut self, vote: &PublishVote) -> (certificate: Option<PublishCertificate>)
        requires
            old(self)@.wf(),
        ensures
            final(self)@.wf(),
            vote_step(old(self)@, *vote, final(self)@, certificate_view(certificate)),
            match certificate {
                Some(certificate) => certificate@.valid(&old(self)@.committee),
                None => true,
            },
    {
        self.accumulator.add_vote(&self.committee, vote)
    }

    /// Takes a vote as `add_vote` does, and gives the certificate that it
    /// completes as the wire form of the message that carries it to the
    /// witnesses.
    pub fn try_make_certificate(&mut self, vote: PublishVote) -> (message: Option<Bytes>)
        requires
            old(self)@.wf(),
        ensures
            final(self)@.wf(),
            match message {
                Some(message) => vote_step(
                    old(self)@,
                    vote,
                    final(self)@,
                    Some(completed(old(self)@, vote)),
                ) && frozen_bytes(message) == request_wire(
                    RequestView::PublishCertificate(completed(old(self)@, vote)),
                ),
                None => vote_step(old(self)@, vote, final(self)@, None),
            },
    {
        match self.add_vote(&vote) {
            Some(certificate) => {
                let request = IdPToWitnessMessage::PublishCertificate(certificate);
                let serialized = encode_request(&request);
                Some(bytes_from_vec(serialized))
            },
            None => None,
        }
    }
}

/// A certificate is handed out exactly when a vote counts and, with it, the
/// distinct witnesses counted reach the quorum threshold. A vote that does
/// not count, such as a second one of the same witness, changes nothing, and
/// a vote that counts without reaching the threshold adds one witness.
pub proof fn lemma_quorum_exact(
    pre: GeneratorView,
    vote: PublishVote,
    post: GeneratorView,
    certificate: Option<CertificateView>,
)
    requires
        pre.wf(),
        vote_step(pre, vote, post, certificate),
    ensures
        certificate is Some <==> pre.counts(vote) && authors(pre.votes).len() + 1
            >= pre.committee.quorum_threshold,
        !pre.counts(vote) ==> post == pre,
        authors(pre.votes).contains(vote.author) ==> post == pre && certificate is None,
        pre.counts(vote) && certificate is None ==> authors(post.votes).len() == authors(
            pre.votes,
        ).len() + 1,
        post.wf(),
{
    lemma_distinct_authors_count(pre.votes);
    if pre.counts(vote) {
        lemma_counted_vote(pre, vote);
    }
}

/// A certificate that the aggregator hands out is valid for its committee,
/// holds no witness twice, and is for the proposal of the vote that
/// completed it.
pub proof fn lemma_emitted_certificate_valid(
    pre: GeneratorView,
    vote: PublishVote,
    post: GeneratorView,
    certificate: CertificateView,
)
    requires
        pre.wf(),
        vote_step(pre, vote, post, Some(certificate)),
    ensures
        certificate.valid(&pre.committee),
        distinct_authors(certificate.votes),
        certificate.root == vote.root,
        certificate.sequence_number == vote.sequence_number,
        post.emitted,
{
    lemma_quorum_exact(pre, vote, post, Some(certificate));
    lemma_counted_vote(pre, vote);
}

/// Once the certificate of a proposal was handed out, no further vote
/// yields another one until the aggregator is cleared.
pub proof fn lemma_emitted_once(
    pre: GeneratorView,
    vote: PublishVote,
    post: GeneratorView,
    certificate: Option<CertificateView>,
)
    requires
        pre.emitted,
        vote_step(pre, vote, post, certificate),
    ensures
        certificate is None,
        post == pre,
{
}


/// Whether `vote` is a valid vote of a committee member for `root` at
/// `sequence_number`.
pub open spec fn supports(
    committee: &Committee,
    root: Root,
    sequence_number: SequenceNumber,
    vote: PublishVote,
) -> bool {
    &&& vote.root == root
    &&& vote.sequence_number == sequence_number
    &&& witness_signed(committee, root, sequence_number, vote.author, vote.signature)
}

/// The distinct witnesses with a valid vote for `root` at `sequence_number`
/// among the votes received.
pub open spec fn supporters(
    committee: &Committee,
    root: Root,
    sequence_number: SequenceNumber,
    received: Seq<PublishVote>,
) -> Set<WitnessId> {
    Set::new(
        |id: WitnessId|
            exists|i: int|
                0 <= i < received.len() && (#[trigger] received[i]).author == id && supports(
                    committee,
                    root,
                    sequence_number,
                    received[i],
                ),
    )
}

/// The number of distinct voters at which a certificate is handed out: the
/// quorum threshold, and at least one, as nothing is certified without a
/// vote.
pub open spec fn quorum(committee: &Committee) -> int {
    if committee.quorum_threshold == 0 {
        1
    } else {
        committee.quorum_threshold as int
    }
}

/// What an aggregator does with the votes it receives, from the moment it
/// tracks nothing: `states[i]` is its state before `received[i]` and
/// `certificates[i]` what it hands out for it.
pub open spec fn is_collection(
    states: Seq<GeneratorView>,
    received: Seq<PublishVote>,
    certificates: Seq<Option<CertificateView>>,
) -> bool {
    &&& states.len() == received.len() + 1
    &&& certificates.len() == received.len()
    &&& states[0].wf()
    &&& states[0].cleared()
    &&& forall|i: int|
        0 <= i < received.len() ==> vote_step(
            states[i],
            #[trigger] received[i],
            states[i + 1],
            certificates[i],
        )
}

/// How the state of an aggregator reflects the votes it has received. While
/// it tracks nothing, no valid vote has come. Once it tracks a proposal, the
/// witnesses it has counted are the supporters of that proposal among the
/// votes received, until the certificate is handed out; from then on the
/// supporters are a quorum.
pub open spec fn tally_matches(state: GeneratorView, received: Seq<PublishVote>) -> bool {
    match state.proposal {
        None => forall|i: int|
            0 <= i < received.len() ==> !supports(
                &state.committee,
                (#[trigger] received[i]).root,
                received[i].sequence_number,
                received[i],
            ),
        Some((root, sequence_number)) => {
            let voters = supporters(&state.committee, root, sequence_number, received);
            &&& voters.finite()
            &&& if state.emitted {
                voters.len() >= quorum(&state.committee)
            } else {
                authors(state.votes) == voters
            }
        },
    }
}

/// One more vote received adds its author to the supporters of a proposal
/// where it is a valid vote for that proposal, and changes them in no other
/// way.
pub proof fn lemma_supporters_push(
    committee: &Committee,
    root: Root,
    sequence_number: SequenceNumber,
    received: Seq<PublishVote>,
    vote: PublishVote,
)
    ensures
        supporters(committee, root, sequence_number, received).finite(),
        supporters(committee, root, sequence_number, received.push(vote)) == if supports(
            committee,
            root,
            sequence_number,
            vote,
        ) {
            supporters(committee, root, sequence_number, received).insert(vote.author)
        } else {
            supporters(committee, root, sequence_number, received)
        },
    decreases received.len(),
{
    let longer = received.push(vote);
    let before = supporters(committee, root, sequence_number, received);
    let after = supporters(committee, root, sequence_number, longer);
    let expected = if supports(committee, root, sequence_number, vote) {
        before.insert(vote.author)
    } else {
        before
    };
    assert forall|id: WitnessId| after.contains(id) <==> expected.contains(id) by {
        if after.contains(id) {
            let i = choose|i: int|
                0 <= i < longer.len() && (#[trigger] longer[i]).author == id && supports(
                    committee,
                    root,
                    sequence_number,
                    longer[i],
                );
            if i < received.len() {
                assert(received[i] == longer[i]);
            }
        }
        if before.contains(id) {
            let i = choose|i: int|
                0 <= i < received.len() && (#[trigger] received[i]).author == id && supports(
                    committee,
                    root,
                    sequence_number,
                    received[i],
                );
            assert(longer[i] == received[i]);
        }
        if supports(committee, root, sequence_number, vote) && id == vote.author {
            assert(longer[received.len() as int] == vote);
        }
    }
    assert(after =~= expected);
    if received.len() == 0 {
        assert(before =~= Set::<WitnessId>::empty());
    } else {
        lemma_supporters_push(committee, root, sequence_number, received.drop_last(), received.last());
        assert(received.drop_last().push(received.last()) =~= received);
    }
}

/// A step of an aggregator keeps its state in line with the votes received.
pub proof fn lemma_tally_step(
    pre: GeneratorView,
    received: Seq<PublishVote>,
    vote: PublishVote,
    post: GeneratorView,
    certificate: Option<CertificateView>,
)
    requires
        pre.wf(),
        tally_matches(pre, received),
        vote_step(pre, vote, post, certificate),
    ensures
        post.wf(),
        post.committee == pre.committee,
        pre.proposal is Some ==> post.proposal == pre.proposal,
        tally_matches(post, received.push(vote)),
        match post.proposal {
            None => certificate is None,
            Some((root, sequence_number)) => certificate is Some <==> supporters(
                &pre.committee,
                root,
                sequence_number,
                received,
            ).len() < quorum(&pre.committee) <= supporters(
                &pre.committee,
                root,
                sequence_number,
                received.push(vote),
            ).len(),
        },
{
    lemma_quorum_exact(pre, vote, post, certificate);
    lemma_distinct_authors_count(pre.votes);
    let longer = received.push(vote);
    let committee = &pre.committee;
    match post.proposal {
        None => {
            assert(!pre.counts(vote));
            assert forall|i: int| 0 <= i < longer.len() implies !supports(
                committee,
                (#[trigger] longer[i]).root,
                longer[i].sequence_number,
                longer[i],
            ) by {
                if i < received.len() {
                    assert(longer[i] == received[i]);
                } else {
                    assert(authors(pre.votes) =~= Set::<WitnessId>::empty());
                }
            }
        },
        Some((root, sequence_number)) => {
            lemma_supporters_push(committee, root, sequence_number, received, vote);
            let before = supporters(committee, root, sequence_number, received);
            let after = supporters(committee, root, sequence_number, longer);
            if pre.proposal is None {
                assert(before =~= Set::<WitnessId>::empty()) by {
                    assert forall|id: WitnessId| !before.contains(id) by {
                        if before.contains(id) {
                            let i = choose|i: int|
                                0 <= i < received.len() && (#[trigger] received[i]).author == id
                                    && supports(committee, root, sequence_number, received[i]);
                            assert(supports(
                                committee,
                                received[i].root,
                                received[i].sequence_number,
                                received[i],
                            ));
                        }
                    }
                }
                assert(authors(pre.votes) =~= Set::<WitnessId>::empty());
            }
            if pre.counts(vote) {
                lemma_counted_vote(pre, vote);
                lemma_authors_push(pre.votes, (vote.author, vote.signature));
                assert(authors(pre.votes) == before);
                assert(after == before.insert(vote.author));
            } else if !pre.emitted {
                assert(authors(pre.votes) == before);
                assert(after == before);
            }
        },
    }
}

/// Along a collection the state stays in line with the votes received.
pub proof fn lemma_collection(
    states: Seq<GeneratorView>,
    received: Seq<PublishVote>,
    certificates: Seq<Option<CertificateView>>,
    k: int,
)
    requires
        is_collection(states, received, certificates),
        0 <= k <= received.len(),
    ensures
        states[k].wf(),
        states[k].committee == states[0].committee,
        tally_matches(states[k], received.take(k)),
    decreases k,
{
    if k > 0 {
        lemma_collection(states, received, certificates, k - 1);
        assert(vote_step(states[k - 1], received[k - 1], states[k], certificates[k - 1]));
        lemma_tally_step(
            states[k - 1],
            received.take(k - 1),
            received[k - 1],
            states[k],
            certificates[k - 1],
        );
        assert(received.take(k - 1).push(received[k - 1]) =~= received.take(k));
    }
}

/// Quorum exactness. An aggregator that starts with nothing hands out the
/// certificate of the proposal it tracks exactly at the vote with which the
/// distinct witnesses that have validly voted for that proposal reach the
/// quorum: not before, not again afterwards, and not at all while no valid
/// vote has come. A witness that votes twice is one supporter.
pub proof fn lemma_certificate_exactly_at_quorum(
    states: Seq<GeneratorView>,
    received: Seq<PublishVote>,
    certificates: Seq<Option<CertificateView>>,
    k: int,
)
    requires
        is_collection(states, received, certificates),
        0 <= k < received.len(),
    ensures
        match states[k + 1].proposal {
            None => certificates[k] is None,
            Some((root, sequence_number)) => certificates[k] is Some <==> supporters(
                &states[0].committee,
                root,
                sequence_number,
                received.take(k),
            ).len() < quorum(&states[0].committee) <= supporters(
                &states[0].committee,
                root,
                sequence_number,
                received.take(k + 1),
            ).len(),
        },
{
    lemma_collection(states, received, certificates, k);
    assert(vote_step(states[k], received[k], states[k + 1], certificates[k]));
    lemma_tally_step(states[k], received.take(k), received[k], states[k + 1], certificates[k]);
    assert(received.take(k).push(received[k]) =~= received.take(k + 1));
}

/// The accumulators of an aggregator that tracks several proposals, as a
/// mathematical value: one for each proposal that a vote has counted for.
pub struct AggregatorView {
    pub committee: Committee,
    pub accumulators: Map<(Root, SequenceNumber), GeneratorView>,
}

impl AggregatorView {
    /// The accumulator of a proposal that no vote has counted for.
    pub open spec fn untouched(self) -> GeneratorView {
        GeneratorView {
            committee: self.committee,
            proposal: None,
            votes: Seq::empty(),
            emitted: false,
        }
    }

    /// The accumulator of the proposal `root` at `sequence_number`.
    pub open spec fn accumulator(self, root: Root, sequence_number: SequenceNumber) -> GeneratorView {
        if self.accumulators.dom().contains((root, sequence_number)) {
            self.accumulators[(root, sequence_number)]
        } else {
            self.untouched()
        }
    }

    /// The invariant of the mapping: under each proposal stands a
    /// well-formed accumulator of that proposal, for the one committee.
    pub open spec fn wf(self) -> bool {
        forall|root: Root, sequence_number: SequenceNumber|
            self.accumulators.dom().contains((root, sequence_number)) ==> {
                let accumulator = #[trigger] self.accumulators[(root, sequence_number)];
                &&& accumulator.wf()
                &&& accumulator.committee == self.committee
                &&& accumulator.proposal == Some((root, sequence_number))
            }
    }
}

/// How an aggregator of several proposals takes a vote: the accumulator of
/// the vote's proposal takes it as `vote_step` says, and the accumulators of
/// all other proposals stay as they are.
pub open spec fn aggregate_step(
    pre: AggregatorView,
    vote: PublishVote,
    post: AggregatorView,
    certificate: Option<CertificateView>,
) -> bool {
    &&& post.committee == pre.committee
    &&& vote_step(
        pre.accumulator(vote.root, vote.sequence_number),
        vote,
        post.accumulator(vote.root, vote.sequence_number),
        certificate,
    )
    &&& forall|root: Root, sequence_number: SequenceNumber|
        (root, sequence_number) != (vote.root, vote.sequence_number)
            ==> #[trigger] post.accumulator(root, sequence_number) == pre.accumulator(
            root,
            sequence_number,
        )
}

/// Whether one of the accumulators is that of `key`.
spec fn holds(accumulators: Seq<Accumulator>, key: (Root, SequenceNumber)) -> bool {
    exists|i: int| 0 <= i < accumulators.len() && (#[trigger] accumulators[i]).proposal == Some(key)
}

/// The place of the accumulator of `key`.
spec fn slot(accumulators: Seq<Accumulator>, key: (Root, SequenceNumber)) -> int {
    choose|i: int| 0 <= i < accumulators.len() && (#[trigger] accumulators[i]).proposal == Some(key)
}

/// Whether every accumulator has its proposal and no two have the same.
spec fn keyed(accumulators: Seq<Accumulator>) -> bool {
    &&& forall|i: int| 0 <= i < accumulators.len() ==> (#[trigger] accumulators[i]).proposal is Some
    &&& forall|i: int, j: int|
        0 <= i < j < accumulators.len() ==> (#[trigger] accumulators[i]).proposal
            != (#[trigger] accumulators[j]).proposal
}

/// The accumulators as a mapping from their proposals.
spec fn table(committee: Committee, accumulators: Seq<Accumulator>) -> Map<
    (Root, SequenceNumber),
    GeneratorView,
> {
    Map::new(
        |key: (Root, SequenceNumber)| holds(accumulators, key),
        |key: (Root, SequenceNumber)| accumulators[slot(accumulators, key)].view_with(committee),
    )
}

/// Where no two accumulators have the same proposal, the accumulator of a
/// proposal is found at its own place.
proof fn lemma_slot(accumulators: Seq<Accumulator>, i: int)
    requires
        keyed(accumulators),
        0 <= i < accumulators.len(),
    ensures
        holds(accumulators, accumulators[i].proposal->0),
        slot(accumulators, accumulators[i].proposal->0) == i,
{
    let key = accumulators[i].proposal->0;
    assert(accumulators[i].proposal == Some(key));
    let j = slot(accumulators, key);
    assert(0 <= j < accumulators.len() && accumulators[j].proposal == Some(key));
    if j < i {
        assert(accumulators[j].proposal != accumulators[i].proposal);
    } else if i < j {
        assert(accumulators[i].proposal != accumulators[j].proposal);
    }
}

/// Replacing one accumulator by another of the same proposal changes the
/// mapping under that proposal only.
proof fn lemma_replaced(
    committee: Committee,
    before: Seq<Accumulator>,
    after: Seq<Accumulator>,
    i: int,
)
    requires
        keyed(before),
        0 <= i < before.len(),
        after.len() == before.len(),
        forall|j: int| 0 <= j < before.len() && j != i ==> after[j] == before[j],
        after[i].proposal == before[i].proposal,
    ensures
        keyed(after),
        table(committee, after) == table(committee, before).insert(
            before[i].proposal->0,
            after[i].view_with(committee),
        ),
{
    assert forall|j: int| 0 <= j < after.len() implies (#[trigger] after[j]).proposal
        == before[j].proposal by {}
    assert(keyed(after)) by {
        assert forall|a: int, b: int| 0 <= a < b < after.len() implies (#[trigger] after[a]).proposal
            != (#[trigger] after[b]).proposal by {
            assert(before[a].proposal != before[b].proposal);
        }
        assert forall|a: int| 0 <= a < after.len() implies (#[trigger] after[a]).proposal is Some by {
            assert(before[a].proposal is Some);
        }
    }
    let key = before[i].proposal->0;
    let left = table(committee, after);
    let right = table(committee, before).insert(key, after[i].view_with(committee));
    assert forall|k: (Root, SequenceNumber)| left.dom().contains(k) <==> right.dom().contains(
        k,
    ) by {
        if holds(after, k) {
            let j = slot(after, k);
            assert(before[j].proposal == Some(k));
        }
        if holds(before, k) {
            let j = slot(before, k);
            assert(after[j].proposal == Some(k));
        }
        if k == key {
            assert(after[i].proposal == Some(k));
        }
    }
    assert forall|k: (Root, SequenceNumber)| left.dom().contains(k) implies left[k]
        == right[k] by {
        let j = slot(after, k);
        lemma_slot(after, j);
        assert(before[j].proposal == Some(k));
        lemma_slot(before, j);
        if j == i {
            assert(k == key);
        } else {
            assert(before[i].proposal != before[j].proposal);
        }
    }
    assert(left =~= right);
}

/// Adding the accumulator of a proposal that had none adds it to the
/// mapping under that proposal.
proof fn lemma_added(committee: Committee, before: Seq<Accumulator>, added: Accumulator)
    requires
        keyed(before),
        added.proposal is Some,
        !holds(before, added.proposal->0),
    ensures
        keyed(before.push(added)),
        table(committee, before.push(added)) == table(committee, before).insert(
            added.proposal->0,
            added.view_with(committee),
        ),
{
    let after = before.push(added);
    let key = added.proposal->0;
    assert(keyed(after)) by {
        assert forall|a: int, b: int| 0 <= a < b < after.len() implies (#[trigger] after[a]).proposal
            != (#[trigger] after[b]).proposal by {
            if b == before.len() {
                assert(before[a].proposal != Some(key));
            } else {
                assert(before[a].proposal != before[b].proposal);
            }
        }
        assert forall|a: int| 0 <= a < after.len() implies (#[trigger] after[a]).proposal is Some by {
            if a < before.len() {
                assert(before[a].proposal is Some);
            }
        }
    }
    let left = table(committee, after);
    let right = table(committee, before).insert(key, added.view_with(committee));
    assert forall|k: (Root, SequenceNumber)| left.dom().contains(k) <==> right.dom().contains(
        k,
    ) by {
        if holds(after, k) {
            let j = slot(after, k);
            if j < before.len() {
                assert(before[j].proposal == Some(k));
            }
        }
        if holds(before, k) {
            let j = slot(before, k);
            assert(after[j].proposal == Some(k));
        }
        if k == key {
            assert(after[before.len() as int].proposal == Some(k));
        }
    }
    assert forall|k: (Root, SequenceNumber)| left.dom().contains(k) implies left[k]
        == right[k] by {
        let j = slot(after, k);
        lemma_slot(after, j);
        if j < before.len() {
            assert(before[j].proposal == Some(k));
            lemma_slot(before, j);
        }
    }
    assert(left =~= right);
}

/// Removing an accumulator removes its proposal from the mapping.
proof fn lemma_removed(committee: Committee, before: Seq<Accumulator>, i: int)
    requires
        keyed(before),
        0 <= i < before.len(),
    ensures
        keyed(before.remove(i)),
        table(committee, before.remove(i)) == table(committee, before).remove(
            before[i].proposal->0,
        ),
{
    let after = before.remove(i);
    let key = before[i].proposal->0;
    assert forall|a: int| 0 <= a < after.len() implies #[trigger] after[a] == before[if a < i {
        a
    } else {
        a + 1
    }] by {}
    assert(keyed(after)) by {
        assert forall|a: int, b: int| 0 <= a < b < after.len() implies (#[trigger] after[a]).proposal
            != (#[trigger] after[b]).proposal by {
            let x = if a < i {
                a
            } else {
                a + 1
            };
            let y = if b < i {
                b
            } else {
                b + 1
            };
            assert(before[x].proposal != before[y].proposal);
        }
        assert forall|a: int| 0 <= a < after.len() implies (#[trigger] after[a]).proposal is Some by {
            let x = if a < i {
                a
            } else {
                a + 1
            };
            assert(before[x].proposal is Some);
        }
    }
    let left = table(committee, after);
    let right = table(committee, before).remove(key);
    assert forall|k: (Root, SequenceNumber)| left.dom().contains(k) <==> right.dom().contains(
        k,
    ) by {
        if holds(after, k) {
            let j = slot(after, k);
            let x = if j < i {
                j
            } else {
                j + 1
            };
            assert(before[x].proposal == Some(k));
            if k == key {
                if x < i {
                    assert(before[x].proposal != before[i].proposal);
                } else {
                    assert(before[i].proposal != before[x].proposal);
                }
            }
        }
        if holds(before, k) && k != key {
            let j = slot(before, k);
            let x = if j < i {
                j
            } else {
                j - 1
            };
            assert(after[x].proposal == Some(k));
        }
    }
    assert forall|k: (Root, SequenceNumber)| left.dom().contains(k) implies left[k]
        == right[k] by {
        let j = slot(after, k);
        lemma_slot(after, j);
        let x = if j < i {
            j
        } else {
            j + 1
        };
        assert(before[x].proposal == Some(k));
        lemma_slot(before, x);
    }
    assert(left =~= right);
}

/// Assembles certificates from votes, for any number of proposals at a time:
/// the votes of each proposal are counted apart.
pub struct Aggregator {
    committee: Committee,
    accumulators: Vec<Accumulator>,
}

impl View for Aggregator {
    type V = AggregatorView;

    closed spec fn view(&self) -> AggregatorView {
        AggregatorView {
            committee: self.committee,
            accumulators: table(self.committee, self.accumulators@),
        }
    }
}

impl Aggregator {
    /// The invariant of an aggregator: it keeps one accumulator for each
    /// proposal, and its mapping is well-formed.
    pub closed spec fn wf(&self) -> bool {
        keyed(self.accumulators@) && self@.wf()
    }

    /// An aggregator for `committee` that tracks nothing yet.
    pub fn new(committee: Committee) -> (aggregator: Aggregator)
        ensures
            aggregator.wf(),
            aggregator@.committee == committee,
            aggregator@.accumulators == Map::<(Root, SequenceNumber), GeneratorView>::empty(),
    {
        let aggregator = Aggregator { committee, accumulators: Vec::new() };
        assert(aggregator@.accumulators =~= Map::<(Root, SequenceNumber), GeneratorView>::empty());
        aggregator
    }

    /// The committee whose votes are counted.
    pub fn committee(&self) -> (committee: &Committee)
        ensures
            *committee == self@.committee,
    {
        &self.committee
    }

    /// The place of the accumulator of a proposal, if there is one.
    fn find(&self, root: &Root, sequence_number: SequenceNumber) -> (place: Option<usize>)
        requires
            keyed(self.accumulators@),
        ensures
            match place {
                Some(i) => i < self.accumulators@.len() && holds(
                    self.accumulators@,
                    (*root, sequence_number),
                ) && slot(self.accumulators@, (*root, sequence_number)) == i,
                None => !holds(self.accumulators@, (*root, sequence_number)),
            },
    {
        let mut i: usize = 0;
        while i < self.accumulators.len()
            invariant
                i <= self.accumulators@.len(),
                keyed(self.accumulators@),
                forall|j: int|
                    0 <= j < i ==> (#[trigger] self.accumulators@[j]).proposal != Some(
                        (*root, sequence_number),
                    ),
            decreases self.accumulators@.len() - i,
        {
            let found = match self.accumulators[i].proposal {
                Some((kept_root, kept_number)) => same_bytes(root, &kept_root)
                    && sequence_number == kept_number,
                None => false,
            };
            if found {
                proof {
                    lemma_slot(self.accumulators@, i as int);
                }
                return Some(i);
            }
            i += 1;
        }
        None
    }

    /// The number of votes counted so far for the proposal `root` at
    /// `sequence_number`.
    pub fn collected(&self, root: &Root, sequence_number: SequenceNumber) -> (count: usize)
        requires
            self.wf(),
        ensures
            count == self@.accumulator(*root, sequence_number).votes.len(),
    {
        match self.find(root, sequence_number) {
            Some(i) => self.accumulators[i].votes.len(),
            None => 0,
        }
    }

    /// Takes a vote. It goes to the accumulator of its proposal, which
    /// counts it where it is a valid vote of a committee member who was not
    /// counted yet for that proposal. The vote that completes a quorum for
    /// its proposal is answered with the certificate, once. No other
    /// proposal is touched.
    pub fn add_vote(&mut self, vote: &PublishVote) -> (certificate: Option<PublishCertificate>)
        requires
            old(self).wf(),
        ensures
            final(self).wf(),
            aggregate_step(old(self)@, *vote, final(self)@, certificate_view(certificate)),
            match certificate {
                Some(certificate) => certificate@.valid(&old(self)@.committee),
                None => true,
            },
    {
        let ghost key = (vote.root, vote.sequence_number);
        let ghost before = self.accumulators@;
        let ghost committee = self.committee;
        match self.find(&vote.root, vote.sequence_number) {
            Some(i) => {
                assert(table(committee, before)[key] == before[i as int].view_with(committee));
                let certificate = self.accumulators[i].add_vote(&self.committee, vote);
                proof {
                    lemma_replaced(committee, before, self.accumulators@, i as int);
                }
                certificate
            },
            None => {
                let mut fresh = Accumulator::new();
                assert(fresh.view_with(committee) =~= old(self)@.untouched()) by {
                    assert(fresh.votes@ =~= Seq::empty());
                }
                let certificate = fresh.add_vote(&self.committee, vote);
                if fresh.proposal.is_some() {
                    proof {
                        lemma_added(committee, before, fresh);
                    }
                    self.accumulators.push(fresh);
                }
                certificate
            },
        }
    }

    /// Forgets the proposal `root` at `sequence_number` and its votes. The
    /// other proposals stay as they are.
    pub fn forget(&mut self, root: &Root, sequence_number: SequenceNumber)
        requires
            old(self).wf(),
        ensures
            final(self).wf(),
            final(self)@.committee == old(self)@.committee,
            final(self)@.accumulators == old(self)@.accumulators.remove((*root, sequence_number)),
    {
        let ghost before = self.accumulators@;
        match self.find(root, sequence_number) {
            Some(i) => {
                proof {
                    lemma_removed(self.committee, before, i as int);
                }
                let _ = self.accumulators.remove(i);
            },
            None => {
                assert(self@.accumulators =~= self@.accumulators.remove((*root, sequence_number)));
            },
        }
    }
}

/// A step of an aggregator of several proposals keeps its mapping
/// well-formed, and hands out a certificate exactly when the accumulator of
/// the vote's proposal does.
pub proof fn lemma_aggregate_step(
    pre: AggregatorView,
    vote: PublishVote,
    post: AggregatorView,
    certificate: Option<CertificateView>,
)
    requires
        pre.wf(),
        aggregate_step(pre, vote, post, certificate),
    ensures
        post.accumulator(vote.root, vote.sequence_number).wf(),
        certificate is Some <==> pre.accumulator(vote.root, vote.sequence_number).counts(vote)
            && authors(pre.accumulator(vote.root, vote.sequence_number).votes).len() + 1
            >= pre.committee.quorum_threshold,
        match certificate {
            Some(certificate) => certificate.valid(&pre.committee) && certificate.root == vote.root
                && certificate.sequence_number == vote.sequence_number,
            None => true,
        },
{
    let accumulator = pre.accumulator(vote.root, vote.sequence_number);
    assert(accumulator.wf() && accumulator.committee == pre.committee) by {
        if pre.accumulators.dom().contains((vote.root, vote.sequence_number)) {
            assert(pre.accumulators[(vote.root, vote.sequence_number)].wf());
        }
    }
    lemma_quorum_exact(
        accumulator,
        vote,
        post.accumulator(vote.root, vote.sequence_number),
        certificate,
    );
    if certificate is Some {
        lemma_emitted_certificate_valid(
            accumulator,
            vote,
            post.accumulator(vote.root, vote.sequence_number),
            certificate->0,
        );
    }
}

} // verus!
