//! The wire format of the protocol's messages.
//!
//! Every message starts with the format's version and a tag that tells the
//! kind of message. Numbers are eight bytes in little-endian order, roots,
//! keys and signatures are their bytes, and what varies in length follows a
//! count. Each kind of value has one wire form and each wire form one value.

use crate::config::WitnessId;
use crate::crypto::Signature;
use crate::encoding::{append_bytes, copy_bytes};
use crate::error::WitnessError;
use crate::messages::{
    certificate_verdict, CertificateView, IdPToWitnessMessage, NotificationView, PublishCertificate,
    PublishCertificateQuery, PublishNotification, PublishVote, ReplyView, RequestView, State,
    WitnessToIdPMessage,
};
use crate::config::Committee;
use vstd::array::array_fill_for_copy_types;
use vstd::bytes::{
    lemma_auto_spec_u64_to_from_le_bytes, spec_u64_from_le_bytes, spec_u64_to_le_bytes,
    u64_from_le_bytes, u64_to_le_bytes,
};
use vstd::prelude::*;
use vstd::slice::slice_subrange;

verus! {

/// The wire form of a number.
pub open spec fn number_wire(number: u64) -> Seq<u8> {
    spec_u64_to_le_bytes(number)
}

/// The wire form of a number is eight bytes that determine it.
pub proof fn lemma_number_wire(number: u64)
    ensures
        number_wire(number).len() == 8,
        spec_u64_from_le_bytes(number_wire(number)) == number,
{
    lemma_auto_spec_u64_to_from_le_bytes();
}

/// Appends the wire form of a number.
pub fn put_number(out: &mut Vec<u8>, number: u64)
    ensures
        final(out)@ == old(out)@ + number_wire(number),
{
    let bytes = u64_to_le_bytes(number);
    append_bytes(out, bytes.as_slice());
}

/// Reads the number whose wire form stands at `start`.
pub fn read_number(bytes: &[u8], start: usize) -> (number: u64)
    requires
        start + 8 <= bytes@.len(),
    ensures
        number_wire(number) == bytes@.subrange(start as int, start + 8),
{
    proof {
        lemma_auto_spec_u64_to_from_le_bytes();
    }
    let total = bytes.len();
    assert(start + 8 <= total);
    u64_from_le_bytes(slice_subrange(bytes, start, start + 8))
}

/// Reads the `N` bytes that stand at `start`.
pub fn read_array<const N: usize>(bytes: &[u8], start: usize) -> (out: [u8; N])
    requires
        start + N <= bytes@.len(),
    ensures
        out@ == bytes@.subrange(start as int, start + N),
{
    let mut out: [u8; N] = array_fill_for_copy_types(0u8);
    let total = bytes.len();
    let mut i: usize = 0;
    while i < N
        invariant
            i <= N,
            start + N <= bytes@.len(),
            bytes@.len() == total,
            forall|j: int| 0 <= j < i ==> out@[j] == bytes@[start + j],
        decreases N - i,
    {
        out[i] = bytes[start + i];
        i += 1;
    }
    assert(out@ =~= bytes@.subrange(start as int, start + N));
    out
}

/// The byte that stands for an error.
pub open spec fn error_code(error: WitnessError) -> u8 {
    match error {
        WitnessError::StaleOrFutureSequence => 0,
        WitnessError::Equivocation => 1,
        WitnessError::InvalidSignature => 2,
        WitnessError::InvalidProof => 3,
        WitnessError::InsufficientVotes => 4,
        WitnessError::UnknownSequence => 5,
        WitnessError::DeliveryFailure => 6,
    }
}

/// The byte that stands for an error.
pub fn encode_error(error: WitnessError) -> (code: u8)
    ensures
        code == error_code(error),
{
    match error {
        WitnessError::StaleOrFutureSequence => 0,
        WitnessError::Equivocation => 1,
        WitnessError::InvalidSignature => 2,
        WitnessError::InvalidProof => 3,
        WitnessError::InsufficientVotes => 4,
        WitnessError::UnknownSequence => 5,
        WitnessError::DeliveryFailure => 6,
    }
}

/// The error that a byte stands for, if it stands for one.
pub fn decode_error(code: u8) -> (error: Option<WitnessError>)
    ensures
        match error {
            Some(error) => error_code(error) == code,
            None => forall|other: WitnessError| error_code(other) != code,
        },
        forall|other: WitnessError| error_code(other) == code ==> error == Some(other),
{
    match code {
        0 => Some(WitnessError::StaleOrFutureSequence),
        1 => Some(WitnessError::Equivocation),
        2 => Some(WitnessError::InvalidSignature),
        3 => Some(WitnessError::InvalidProof),
        4 => Some(WitnessError::InsufficientVotes),
        5 => Some(WitnessError::UnknownSequence),
        6 => Some(WitnessError::DeliveryFailure),
        _ => None,
    }
}

/// The wire form of a vote: root, sequence number, author, signature.
pub open spec fn vote_wire(vote: PublishVote) -> Seq<u8> {
    vote.root@ + number_wire(vote.sequence_number) + number_wire(vote.author) + vote.signature@
}

/// Where each field of a vote stands in its wire form.
pub proof fn lemma_vote_wire(vote: PublishVote)
    ensures
        vote_wire(vote).len() == 112,
        vote_wire(vote).subrange(0, 32) == vote.root@,
        vote_wire(vote).subrange(32, 40) == number_wire(vote.sequence_number),
        vote_wire(vote).subrange(40, 48) == number_wire(vote.author),
        vote_wire(vote).subrange(48, 112) == vote.signature@,
{
    lemma_number_wire(vote.sequence_number);
    lemma_number_wire(vote.author);
    let wire = vote_wire(vote);
    assert(wire.subrange(0, 32) =~= vote.root@);
    assert(wire.subrange(32, 40) =~= number_wire(vote.sequence_number));
    assert(wire.subrange(40, 48) =~= number_wire(vote.author));
    assert(wire.subrange(48, 112) =~= vote.signature@);
}

/// Two votes with the same wire form are the same vote.
pub proof fn lemma_vote_wire_injective(first: PublishVote, second: PublishVote)
    requires
        vote_wire(first) == vote_wire(second),
    ensures
        first == second,
{
    lemma_vote_wire(first);
    lemma_vote_wire(second);
    lemma_number_wire(first.sequence_number);
    lemma_number_wire(second.sequence_number);
    lemma_number_wire(first.author);
    lemma_number_wire(second.author);
    assert(first.root =~= second.root);
    assert(first.signature =~= second.signature);
}

/// Appends the wire form of a vote.
pub fn put_vote(out: &mut Vec<u8>, vote: &PublishVote)
    ensures
        final(out)@ == old(out)@ + vote_wire(*vote),
{
    append_bytes(out, vote.root.as_slice());
    put_number(out, vote.sequence_number);
    put_number(out, vote.author);
    append_bytes(out, vote.signature.as_slice());
    assert(out@ =~= old(out)@ + vote_wire(*vote));
}

/// Reads a vote from the bytes that are its wire form.
pub fn decode_vote(bytes: &[u8]) -> (vote: Option<PublishVote>)
    ensures
        match vote {
            Some(vote) => vote_wire(vote) == bytes@,
            None => forall|other: PublishVote| vote_wire(other) != bytes@,
        },
{
    if bytes.len() != 112 {
        assert forall|other: PublishVote| vote_wire(other) != bytes@ by {
            lemma_vote_wire(other);
        }
        return None;
    }
    let root = read_array::<32>(bytes, 0);
    let sequence_number = read_number(bytes, 32);
    let author = read_number(bytes, 40);
    let signature = read_array::<64>(bytes, 48);
    let vote = PublishVote { root, sequence_number, author, signature };
    proof {
        lemma_number_wire(sequence_number);
        lemma_number_wire(author);
        assert(vote_wire(vote) =~= bytes@);
    }
    Some(vote)
}

/// The wire form of a state: root, sequence number, and the lock as a flag
/// byte that the locked sequence number follows where the flag is 1.
pub open spec fn state_wire(state: State) -> Seq<u8> {
    state.root@ + number_wire(state.sequence_number) + match state.lock {
        Some(locked) => seq![1u8] + number_wire(locked),
        None => seq![0u8],
    }
}

/// Where each field of a state stands in its wire form.
pub proof fn lemma_state_wire(state: State)
    ensures
        state_wire(state).len() == if state.lock is Some {
            49int
        } else {
            41int
        },
        state_wire(state).subrange(0, 32) == state.root@,
        state_wire(state).subrange(32, 40) == number_wire(state.sequence_number),
        state_wire(state)[40] == if state.lock is Some {
            1u8
        } else {
            0u8
        },
        match state.lock {
            Some(locked) => state_wire(state).subrange(41, 49) == number_wire(locked),
            None => true,
        },
{
    lemma_number_wire(state.sequence_number);
    let wire = state_wire(state);
    assert(wire.subrange(0, 32) =~= state.root@);
    assert(wire.subrange(32, 40) =~= number_wire(state.sequence_number));
    match state.lock {
        Some(locked) => {
            lemma_number_wire(locked);
            assert(wire.subrange(41, 49) =~= number_wire(locked));
        },
        None => {},
    }
}

/// Two states with the same wire form are the same state.
pub proof fn lemma_state_wire_injective(first: State, second: State)
    requires
        state_wire(first) == state_wire(second),
    ensures
        first == second,
{
    lemma_state_wire(first);
    lemma_state_wire(second);
    lemma_number_wire(first.sequence_number);
    lemma_number_wire(second.sequence_number);
    assert(first.root =~= second.root);
    match first.lock {
        Some(locked) => {
            lemma_number_wire(locked);
            lemma_number_wire(second.lock->0);
        },
        None => {},
    }
}

/// Appends the wire form of a state.
pub fn put_state(out: &mut Vec<u8>, state: &State)
    ensures
        final(out)@ == old(out)@ + state_wire(*state),
{
    append_bytes(out, state.root.as_slice());
    put_number(out, state.sequence_number);
    match state.lock {
        Some(locked) => {
            out.push(1u8);
            put_number(out, locked);
        },
        None => {
            out.push(0u8);
        },
    }
    assert(out@ =~= old(out)@ + state_wire(*state));
}

/// Reads a state from the bytes that are its wire form.
pub fn decode_state(bytes: &[u8]) -> (state: Option<State>)
    ensures
        match state {
            Some(state) => state_wire(state) == bytes@,
            None => forall|other: State| state_wire(other) != bytes@,
        },
{
    if bytes.len() < 41 {
        assert forall|other: State| state_wire(other) != bytes@ by {
            lemma_state_wire(other);
        }
        return None;
    }
    let root = read_array::<32>(bytes, 0);
    let sequence_number = read_number(bytes, 32);
    let flag = bytes[40];
    if flag == 0 && bytes.len() == 41 {
        let state = State { root, sequence_number, lock: None };
        proof {
            lemma_number_wire(sequence_number);
            assert(state_wire(state) =~= bytes@);
        }
        Some(state)
    } else if flag == 1 && bytes.len() == 49 {
        let locked = read_number(bytes, 41);
        let state = State { root, sequence_number, lock: Some(locked) };
        proof {
            lemma_number_wire(sequence_number);
            lemma_number_wire(locked);
            assert(state_wire(state) =~= bytes@);
        }
        Some(state)
    } else {
        assert forall|other: State| state_wire(other) != bytes@ by {
            lemma_state_wire(other);
        }
        None
    }
}

/// Whether a notification has a wire form: its proof must be short enough
/// for its length to be a number of the format.
pub open spec fn notification_fits(notification: NotificationView) -> bool {
    notification.proof.len() <= u64::MAX
}

/// The wire form of a notification: root, sequence number, signature,
/// author, the length of the proof, the proof.
pub open spec fn notification_wire(notification: NotificationView) -> Seq<u8> {
    notification.root@ + number_wire(notification.sequence_number) + notification.signature@
        + notification.author@ + number_wire(notification.proof.len() as u64)
        + notification.proof
}

/// Where each field of a notification stands in its wire form.
pub proof fn lemma_notification_wire(notification: NotificationView)
    ensures
        notification_wire(notification).len() == 144 + notification.proof.len(),
        notification_wire(notification).subrange(0, 32) == notification.root@,
        notification_wire(notification).subrange(32, 40) == number_wire(
            notification.sequence_number,
        ),
        notification_wire(notification).subrange(40, 104) == notification.signature@,
        notification_wire(notification).subrange(104, 136) == notification.author@,
        notification_wire(notification).subrange(136, 144) == number_wire(
            notification.proof.len() as u64,
        ),
        notification_wire(notification).subrange(144, 144 + notification.proof.len() as int)
            == notification.proof,
{
    lemma_number_wire(notification.sequence_number);
    lemma_number_wire(notification.proof.len() as u64);
    let wire = notification_wire(notification);
    assert(wire.subrange(0, 32) =~= notification.root@);
    assert(wire.subrange(32, 40) =~= number_wire(notification.sequence_number));
    assert(wire.subrange(40, 104) =~= notification.signature@);
    assert(wire.subrange(104, 136) =~= notification.author@);
    assert(wire.subrange(136, 144) =~= number_wire(notification.proof.len() as u64));
    assert(wire.subrange(144, 144 + notification.proof.len() as int) =~= notification.proof);
}

/// Two notifications with the same wire form are the same notification.
pub proof fn lemma_notification_wire_injective(first: NotificationView, second: NotificationView)
    requires
        notification_fits(first),
        notification_fits(second),
        notification_wire(first) == notification_wire(second),
    ensures
        first == second,
{
    lemma_notification_wire(first);
    lemma_notification_wire(second);
    lemma_number_wire(first.sequence_number);
    lemma_number_wire(second.sequence_number);
    assert(first.root =~= second.root);
    assert(first.signature =~= second.signature);
    assert(first.author =~= second.author);
    assert(first.proof =~= second.proof);
}

/// Appends the wire form of a notification.
pub fn put_notification(out: &mut Vec<u8>, notification: &PublishNotification)
    ensures
        final(out)@ == old(out)@ + notification_wire(notification@),
        notification_fits(notification@),
{
    append_bytes(out, notification.root.as_slice());
    put_number(out, notification.sequence_number);
    append_bytes(out, notification.signature.as_slice());
    append_bytes(out, notification.author.as_slice());
    put_number(out, notification.proof.len() as u64);
    append_bytes(out, notification.proof.as_slice());
    assert(out@ =~= old(out)@ + notification_wire(notification@));
}

/// Reads a notification from the bytes that are its wire form.
pub fn decode_notification(bytes: &[u8]) -> (notification: Option<PublishNotification>)
    ensures
        match notification {
            Some(notification) => notification_fits(notification@) && notification_wire(
                notification@,
            ) == bytes@,
            None => forall|other: NotificationView|
                notification_fits(other) ==> notification_wire(other) != bytes@,
        },
{
    if bytes.len() < 144 {
        assert forall|other: NotificationView| notification_fits(other) implies notification_wire(
            other,
        ) != bytes@ by {
            lemma_notification_wire(other);
        }
        return None;
    }
    let root = read_array::<32>(bytes, 0);
    let sequence_number = read_number(bytes, 32);
    let signature = read_array::<64>(bytes, 40);
    let author = read_array::<32>(bytes, 104);
    let length = read_number(bytes, 136);
    if length != (bytes.len() - 144) as u64 {
        assert forall|other: NotificationView| notification_fits(other) implies notification_wire(
            other,
        ) != bytes@ by {
            lemma_notification_wire(other);
            lemma_number_wire(other.proof.len() as u64);
            lemma_number_wire(length);
        }
        return None;
    }
    let proof = copy_bytes(slice_subrange(bytes, 144, bytes.len()));
    let notification = PublishNotification { root, proof, sequence_number, signature, author };
    proof {
        lemma_number_wire(sequence_number);
        lemma_number_wire(length);
        assert(notification_wire(notification@) =~= bytes@);
    }
    Some(notification)
}


/// The version of the wire format; it is the first byte of every message.
pub const WIRE_VERSION: u8 = 1;

/// The wire form of one entry of a certificate: author, signature.
pub open spec fn entry_wire(entry: (WitnessId, Signature)) -> Seq<u8> {
    number_wire(entry.0) + entry.1@
}

/// The wire form of the entries of a certificate, one after the other.
pub open spec fn votes_wire(votes: Seq<(WitnessId, Signature)>) -> Seq<u8>
    decreases votes.len(),
{
    if votes.len() == 0 {
        Seq::empty()
    } else {
        votes_wire(votes.drop_last()) + entry_wire(votes.last())
    }
}

/// An entry takes 72 bytes, and the entries stand at multiples of 72.
pub proof fn lemma_votes_wire(votes: Seq<(WitnessId, Signature)>, i: int)
    requires
        0 <= i < votes.len(),
    ensures
        entry_wire(votes[i]).len() == 72,
        votes_wire(votes).len() == 72 * votes.len(),
        votes_wire(votes).subrange(72 * i, 72 * i + 72) == entry_wire(votes[i]),
    decreases votes.len(),
{
    lemma_number_wire(votes[i].0);
    lemma_votes_wire_len(votes);
    lemma_votes_wire_len(votes.drop_last());
    let wire = votes_wire(votes);
    lemma_number_wire(votes.last().0);
    if i == votes.len() - 1 {
        assert(wire.subrange(72 * i, 72 * i + 72) =~= entry_wire(votes.last()));
    } else {
        lemma_votes_wire(votes.drop_last(), i);
        assert(wire.subrange(72 * i, 72 * i + 72) =~= votes_wire(votes.drop_last()).subrange(
            72 * i,
            72 * i + 72,
        ));
    }
}

/// The entries of a certificate take 72 bytes each.
pub proof fn lemma_votes_wire_len(votes: Seq<(WitnessId, Signature)>)
    ensures
        votes_wire(votes).len() == 72 * votes.len(),
    decreases votes.len(),
{
    if votes.len() > 0 {
        lemma_votes_wire_len(votes.drop_last());
        lemma_number_wire(votes.last().0);
    }
}

/// Bytes that hold the wire form of each entry at its place are the wire
/// form of the entries.
pub proof fn lemma_votes_wire_from_entries(votes: Seq<(WitnessId, Signature)>, wire: Seq<u8>)
    requires
        wire.len() == 72 * votes.len(),
        forall|i: int|
            0 <= i < votes.len() ==> wire.subrange(72 * i, 72 * i + 72) == entry_wire(
                #[trigger] votes[i],
            ),
    ensures
        votes_wire(votes) == wire,
    decreases votes.len(),
{
    if votes.len() == 0 {
        assert(wire =~= Seq::<u8>::empty());
    } else {
        let shorter = votes.drop_last();
        let front = wire.subrange(0, 72 * shorter.len() as int);
        assert forall|i: int| 0 <= i < shorter.len() implies front.subrange(72 * i, 72 * i + 72)
            == entry_wire(#[trigger] shorter[i]) by {
            assert(shorter[i] == votes[i]);
            assert(front.subrange(72 * i, 72 * i + 72) =~= wire.subrange(72 * i, 72 * i + 72));
        }
        lemma_votes_wire_from_entries(shorter, front);
        let last = votes.len() - 1;
        assert(wire.subrange(72 * last, 72 * last + 72) == entry_wire(votes[last]));
        assert(wire =~= front + wire.subrange(72 * last, 72 * last + 72));
    }
}

/// Two entries with the same wire form are the same entry.
pub proof fn lemma_entry_wire_injective(first: (WitnessId, Signature), second: (WitnessId, Signature))
    requires
        entry_wire(first) == entry_wire(second),
    ensures
        first == second,
{
    lemma_number_wire(first.0);
    lemma_number_wire(second.0);
    assert(entry_wire(first).subrange(0, 8) =~= number_wire(first.0));
    assert(entry_wire(second).subrange(0, 8) =~= number_wire(second.0));
    assert(entry_wire(first).subrange(8, 72) =~= first.1@);
    assert(entry_wire(second).subrange(8, 72) =~= second.1@);
    assert(first.1 =~= second.1);
}

/// Two lists of entries with the same wire form are the same list.
pub proof fn lemma_votes_wire_injective(
    first: Seq<(WitnessId, Signature)>,
    second: Seq<(WitnessId, Signature)>,
)
    requires
        votes_wire(first) == votes_wire(second),
    ensures
        first == second,
{
    lemma_votes_wire_len(first);
    lemma_votes_wire_len(second);
    assert(first.len() == second.len());
    assert forall|i: int| 0 <= i < first.len() implies first[i] == second[i] by {
        lemma_votes_wire(first, i);
        lemma_votes_wire(second, i);
        lemma_entry_wire_injective(first[i], second[i]);
    }
    assert(first =~= second);
}

/// Whether a certificate has a wire form: the number of its votes must be a
/// number of the format.
pub open spec fn certificate_fits(certificate: CertificateView) -> bool {
    certificate.votes.len() <= u64::MAX
}

/// The wire form of a certificate: root, sequence number, the number of
/// votes, the votes.
pub open spec fn certificate_wire(certificate: CertificateView) -> Seq<u8> {
    certificate.root@ + number_wire(certificate.sequence_number) + number_wire(
        certificate.votes.len() as u64,
    ) + votes_wire(certificate.votes)
}

/// Where each field of a certificate stands in its wire form.
pub proof fn lemma_certificate_wire(certificate: CertificateView)
    ensures
        certificate_wire(certificate).len() == 48 + 72 * certificate.votes.len(),
        certificate_wire(certificate).subrange(0, 32) == certificate.root@,
        certificate_wire(certificate).subrange(32, 40) == number_wire(
            certificate.sequence_number,
        ),
        certificate_wire(certificate).subrange(40, 48) == number_wire(
            certificate.votes.len() as u64,
        ),
        certificate_wire(certificate).subrange(48, 48 + 72 * certificate.votes.len() as int)
            == votes_wire(certificate.votes),
{
    lemma_number_wire(certificate.sequence_number);
    lemma_number_wire(certificate.votes.len() as u64);
    lemma_votes_wire_len(certificate.votes);
    let wire = certificate_wire(certificate);
    assert(wire.subrange(0, 32) =~= certificate.root@);
    assert(wire.subrange(32, 40) =~= number_wire(certificate.sequence_number));
    assert(wire.subrange(40, 48) =~= number_wire(certificate.votes.len() as u64));
    assert(wire.subrange(48, 48 + 72 * certificate.votes.len() as int) =~= votes_wire(
        certificate.votes,
    ));
}

/// Two certificates with the same wire form are the same certificate.
pub proof fn lemma_certificate_wire_injective(first: CertificateView, second: CertificateView)
    requires
        certificate_wire(first) == certificate_wire(second),
    ensures
        first == second,
{
    lemma_certificate_wire(first);
    lemma_certificate_wire(second);
    lemma_number_wire(first.sequence_number);
    lemma_number_wire(second.sequence_number);
    assert(first.root =~= second.root);
    assert(first.votes.len() == second.votes.len());
    lemma_votes_wire_injective(first.votes, second.votes);
}

/// Appends the wire form of a certificate.
pub fn put_certificate(out: &mut Vec<u8>, certificate: &PublishCertificate)
    ensures
        final(out)@ == old(out)@ + certificate_wire(certificate@),
        certificate_fits(certificate@),
{
    append_bytes(out, certificate.root.as_slice());
    put_number(out, certificate.sequence_number);
    put_number(out, certificate.votes.len() as u64);
    let ghost head = out@;
    let mut i: usize = 0;
    while i < certificate.votes.len()
        invariant
            i <= certificate.votes@.len(),
            out@ == head + votes_wire(certificate.votes@.take(i as int)),
        decreases certificate.votes@.len() - i,
    {
        let ghost before = out@;
        put_number(out, certificate.votes[i].0);
        append_bytes(out, certificate.votes[i].1.as_slice());
        proof {
            let longer = certificate.votes@.take(i + 1);
            assert(longer.drop_last() =~= certificate.votes@.take(i as int));
            assert(longer.last() == certificate.votes@[i as int]);
            assert(out@ =~= head + votes_wire(longer));
        }
        i += 1;
    }
    assert(certificate.votes@.take(i as int) =~= certificate.votes@);
    assert(out@ =~= old(out)@ + certificate_wire(certificate@));
}

/// Reads a certificate from the bytes that are its wire form.
pub fn decode_certificate(bytes: &[u8]) -> (certificate: Option<PublishCertificate>)
    ensures
        match certificate {
            Some(certificate) => certificate_fits(certificate@) && certificate_wire(certificate@)
                == bytes@,
            None => forall|other: CertificateView|
                certificate_fits(other) ==> certificate_wire(other) != bytes@,
        },
{
    if bytes.len() < 48 {
        assert forall|other: CertificateView| certificate_fits(other) implies certificate_wire(
            other,
        ) != bytes@ by {
            lemma_certificate_wire(other);
        }
        return None;
    }
    let root = read_array::<32>(bytes, 0);
    let sequence_number = read_number(bytes, 32);
    let count = read_number(bytes, 40);
    let rest: usize = bytes.len() - 48;
    if rest % 72 != 0 || (rest / 72) as u64 != count {
        assert forall|other: CertificateView| certificate_fits(other) implies certificate_wire(
            other,
        ) != bytes@ by {
            lemma_certificate_wire(other);
            lemma_number_wire(other.votes.len() as u64);
            lemma_number_wire(count);
        }
        return None;
    }
    let total: usize = rest / 72;
    let length: usize = bytes.len();
    let mut votes: Vec<(WitnessId, Signature)> = Vec::new();
    let mut i: usize = 0;
    while i < total
        invariant
            i <= total,
            bytes@.len() == length,
            bytes@.len() == 48 + 72 * total,
            votes@.len() == i,
            forall|k: int|
                0 <= k < i ==> bytes@.subrange(48 + 72 * k, 48 + 72 * k + 72) == entry_wire(
                    #[trigger] votes@[k],
                ),
        decreases total - i,
    {
        let author = read_number(bytes, 48 + 72 * i);
        let signature = read_array::<64>(bytes, 48 + 72 * i + 8);
        let ghost before = votes@;
        votes.push((author, signature));
        proof {
            assert(bytes@.subrange(48 + 72 * i, 48 + 72 * i + 72) =~= entry_wire(
                (author, signature),
            ));
            assert forall|k: int| 0 <= k < i + 1 implies bytes@.subrange(
                48 + 72 * k,
                48 + 72 * k + 72,
            ) == entry_wire(#[trigger] votes@[k]) by {
                if k < i {
                    assert(votes@[k] == before[k]);
                }
            }
        }
        i += 1;
    }
    let certificate = PublishCertificate { root, sequence_number, votes };
    proof {
        let tail = bytes@.subrange(48, bytes@.len() as int);
        assert forall|k: int| 0 <= k < votes@.len() implies tail.subrange(72 * k, 72 * k + 72)
            == entry_wire(#[trigger] votes@[k]) by {
            assert(tail.subrange(72 * k, 72 * k + 72) =~= bytes@.subrange(
                48 + 72 * k,
                48 + 72 * k + 72,
            ));
        }
        lemma_votes_wire_from_entries(votes@, tail);
        lemma_number_wire(sequence_number);
        lemma_number_wire(count);
        assert(certificate_wire(certificate@) =~= bytes@);
    }
    Some(certificate)
}


/// The tag of a message to a witness.
pub open spec fn request_tag(request: RequestView) -> u8 {
    match request {
        RequestView::PublishNotification(_) => 0,
        RequestView::PublishCertificate(_) => 1,
        RequestView::StateQuery => 2,
        RequestView::PublishCertificateQuery(_) => 3,
    }
}

/// What follows the tag of a message to a witness.
pub open spec fn request_body(request: RequestView) -> Seq<u8> {
    match request {
        RequestView::PublishNotification(notification) => notification_wire(notification),
        RequestView::PublishCertificate(certificate) => certificate_wire(certificate),
        RequestView::StateQuery => Seq::empty(),
        RequestView::PublishCertificateQuery(query) => number_wire(query.sequence_number),
    }
}

/// Whether a message to a witness has a wire form.
pub open spec fn request_fits(request: RequestView) -> bool {
    match request {
        RequestView::PublishNotification(notification) => notification_fits(notification),
        RequestView::PublishCertificate(certificate) => certificate_fits(certificate),
        _ => true,
    }
}

/// The wire form of a message to a witness: version, tag, body.
pub open spec fn request_wire(request: RequestView) -> Seq<u8> {
    seq![WIRE_VERSION, request_tag(request)] + request_body(request)
}

/// Two messages to a witness with the same wire form are the same message.
pub proof fn lemma_request_wire_injective(first: RequestView, second: RequestView)
    requires
        request_fits(first),
        request_fits(second),
        request_wire(first) == request_wire(second),
    ensures
        first == second,
{
    let wire = request_wire(first);
    assert(wire[1] == request_tag(first));
    assert(wire[1] == request_tag(second));
    assert(wire.subrange(2, wire.len() as int) =~= request_body(first));
    assert(wire.subrange(2, wire.len() as int) =~= request_body(second));
    match first {
        RequestView::PublishNotification(notification) => {
            lemma_notification_wire_injective(notification, second->PublishNotification_0);
        },
        RequestView::PublishCertificate(certificate) => {
            lemma_certificate_wire_injective(certificate, second->PublishCertificate_0);
        },
        RequestView::StateQuery => {},
        RequestView::PublishCertificateQuery(query) => {
            lemma_number_wire(query.sequence_number);
            lemma_number_wire(second->PublishCertificateQuery_0.sequence_number);
        },
    }
}

/// The wire form of a message to a witness.
pub fn encode_request(request: &IdPToWitnessMessage) -> (out: Vec<u8>)
    ensures
        out@ == request_wire(request@),
        request_fits(request@),
{
    let mut out: Vec<u8> = Vec::new();
    out.push(WIRE_VERSION);
    match request {
        IdPToWitnessMessage::PublishNotification(notification) => {
            out.push(0u8);
            put_notification(&mut out, notification);
        },
        IdPToWitnessMessage::PublishCertificate(certificate) => {
            out.push(1u8);
            put_certificate(&mut out, certificate);
        },
        IdPToWitnessMessage::StateQuery => {
            out.push(2u8);
        },
        IdPToWitnessMessage::PublishCertificateQuery(query) => {
            out.push(3u8);
            put_number(&mut out, query.sequence_number);
        },
    }
    assert(out@ =~= request_wire(request@));
    out
}

/// Reads a message to a witness. It is found exactly where the bytes are
/// the wire form of a message, and then it is that message.
pub fn decode_request(bytes: &[u8]) -> (request: Option<IdPToWitnessMessage>)
    ensures
        match request {
            Some(request) => request_fits(request@) && request_wire(request@) == bytes@,
            None => forall|other: RequestView|
                request_fits(other) ==> request_wire(other) != bytes@,
        },
        forall|other: RequestView|
            request_fits(other) && request_wire(other) == bytes@ ==> request is Some
                && request->0@ == other,
{
    let request = decode_request_once(bytes);
    proof {
        assert forall|other: RequestView|
            request_fits(other) && request_wire(other) == bytes@ implies request is Some
            && request->0@ == other by {
            lemma_request_wire_injective(request->0@, other);
        }
    }
    request
}

fn decode_request_once(bytes: &[u8]) -> (request: Option<IdPToWitnessMessage>)
    ensures
        match request {
            Some(request) => request_fits(request@) && request_wire(request@) == bytes@,
            None => forall|other: RequestView|
                request_fits(other) ==> request_wire(other) != bytes@,
        },
{
    if bytes.len() < 2 || bytes[0] != WIRE_VERSION {
        assert forall|other: RequestView| request_fits(other) implies request_wire(other)
            != bytes@ by {
            assert(request_wire(other)[0] == WIRE_VERSION);
        }
        return None;
    }
    let tag = bytes[1];
    let body = slice_subrange(bytes, 2, bytes.len());
    assert forall|other: RequestView| request_wire(other) == bytes@ implies request_tag(other)
        == tag && request_body(other) == body@ by {
        assert(request_wire(other)[1] == request_tag(other));
        assert(request_wire(other).subrange(2, bytes@.len() as int) =~= request_body(other));
    }
    match tag {
        0 => match decode_notification(body) {
            Some(notification) => {
                let request = IdPToWitnessMessage::PublishNotification(notification);
                assert(request_wire(request@) =~= bytes@);
                Some(request)
            },
            None => None,
        },
        1 => match decode_certificate(body) {
            Some(certificate) => {
                let request = IdPToWitnessMessage::PublishCertificate(certificate);
                assert(request_wire(request@) =~= bytes@);
                Some(request)
            },
            None => None,
        },
        2 => {
            if body.len() == 0 {
                let request = IdPToWitnessMessage::StateQuery;
                assert(request_wire(request@) =~= bytes@);
                Some(request)
            } else {
                None
            }
        },
        3 => {
            if body.len() == 8 {
                let sequence_number = read_number(body, 0);
                let request = IdPToWitnessMessage::PublishCertificateQuery(
                    PublishCertificateQuery { sequence_number },
                );
                proof {
                    assert(body@.subrange(0, 8) =~= body@);
                    assert(request_wire(request@) =~= bytes@);
                }
                Some(request)
            } else {
                assert forall|other: RequestView| request_fits(other) implies request_wire(other)
                    != bytes@ by {
                    if let RequestView::PublishCertificateQuery(query) = other {
                        lemma_number_wire(query.sequence_number);
                    }
                }
                None
            }
        },
        _ => None,
    }
}

/// The tag of an answer of a witness.
pub open spec fn reply_tag(reply: ReplyView) -> u8 {
    match reply {
        ReplyView::PublishVote(Ok(_)) => 0,
        ReplyView::PublishVote(Err(_)) => 1,
        ReplyView::State(Ok(_)) => 2,
        ReplyView::State(Err(_)) => 3,
        ReplyView::PublishCertificateResponse(Ok(_)) => 4,
        ReplyView::PublishCertificateResponse(Err(_)) => 5,
    }
}

/// What follows the tag of an answer of a witness.
pub open spec fn reply_body(reply: ReplyView) -> Seq<u8> {
    match reply {
        ReplyView::PublishVote(Ok(vote)) => vote_wire(vote),
        ReplyView::PublishVote(Err(error)) => seq![error_code(error)],
        ReplyView::State(Ok(state)) => state_wire(state),
        ReplyView::State(Err(error)) => seq![error_code(error)],
        ReplyView::PublishCertificateResponse(Ok(certificate)) => certificate_wire(certificate),
        ReplyView::PublishCertificateResponse(Err(error)) => seq![error_code(error)],
    }
}

/// Whether an answer of a witness has a wire form.
pub open spec fn reply_fits(reply: ReplyView) -> bool {
    match reply {
        ReplyView::PublishCertificateResponse(Ok(certificate)) => certificate_fits(certificate),
        _ => true,
    }
}

/// The wire form of an answer of a witness: version, tag, body.
pub open spec fn reply_wire(reply: ReplyView) -> Seq<u8> {
    seq![WIRE_VERSION, reply_tag(reply)] + reply_body(reply)
}

/// Two answers of a witness with the same wire form are the same answer.
pub proof fn lemma_reply_wire_injective(first: ReplyView, second: ReplyView)
    requires
        reply_fits(first),
        reply_fits(second),
        reply_wire(first) == reply_wire(second),
    ensures
        first == second,
{
    let wire = reply_wire(first);
    assert(wire[1] == reply_tag(first));
    assert(wire[1] == reply_tag(second));
    assert(wire.subrange(2, wire.len() as int) =~= reply_body(first));
    assert(wire.subrange(2, wire.len() as int) =~= reply_body(second));
    match first {
        ReplyView::PublishVote(Ok(vote)) => {
            lemma_vote_wire_injective(vote, second->PublishVote_0->Ok_0);
        },
        ReplyView::PublishVote(Err(error)) => {
            assert(reply_body(first)[0] == error_code(error));
            assert(reply_body(second)[0] == error_code(second->PublishVote_0->Err_0));
        },
        ReplyView::State(Ok(state)) => {
            lemma_state_wire_injective(state, second->State_0->Ok_0);
        },
        ReplyView::State(Err(error)) => {
            assert(reply_body(first)[0] == error_code(error));
            assert(reply_body(second)[0] == error_code(second->State_0->Err_0));
        },
        ReplyView::PublishCertificateResponse(Ok(certificate)) => {
            lemma_certificate_wire_injective(
                certificate,
                second->PublishCertificateResponse_0->Ok_0,
            );
        },
        ReplyView::PublishCertificateResponse(Err(error)) => {
            assert(reply_body(first)[0] == error_code(error));
            assert(reply_body(second)[0] == error_code(
                second->PublishCertificateResponse_0->Err_0,
            ));
        },
    }
}

/// The wire form of an answer of a witness.
pub fn encode_reply(reply: &WitnessToIdPMessage) -> (out: Vec<u8>)
    ensures
        out@ == reply_wire(reply@),
        reply_fits(reply@),
{
    let mut out: Vec<u8> = Vec::new();
    out.push(WIRE_VERSION);
    match reply {
        WitnessToIdPMessage::PublishVote(Ok(vote)) => {
            out.push(0u8);
            put_vote(&mut out, vote);
        },
        WitnessToIdPMessage::PublishVote(Err(error)) => {
            out.push(1u8);
            out.push(encode_error(*error));
        },
        WitnessToIdPMessage::State(Ok(state)) => {
            out.push(2u8);
            put_state(&mut out, state);
        },
        WitnessToIdPMessage::State(Err(error)) => {
            out.push(3u8);
            out.push(encode_error(*error));
        },
        WitnessToIdPMessage::PublishCertificateResponse(Ok(certificate)) => {
            out.push(4u8);
            put_certificate(&mut out, certificate);
        },
        WitnessToIdPMessage::PublishCertificateResponse(Err(error)) => {
            out.push(5u8);
            out.push(encode_error(*error));
        },
    }
    assert(out@ =~= reply_wire(reply@));
    out
}

/// Reads the error that is the body of an answer.
fn decode_error_body(body: &[u8]) -> (error: Option<WitnessError>)
    ensures
        match error {
            Some(error) => body@ == seq![error_code(error)],
            None => forall|other: WitnessError| body@ != seq![error_code(other)],
        },
{
    if body.len() != 1 {
        assert forall|other: WitnessError| body@ != seq![error_code(other)] by {
            assert(seq![error_code(other)].len() == 1);
        }
        return None;
    }
    match decode_error(body[0]) {
        Some(error) => {
            assert(body@ =~= seq![error_code(error)]);
            Some(error)
        },
        None => {
            assert forall|other: WitnessError| body@ != seq![error_code(other)] by {
                assert(seq![error_code(other)][0] == error_code(other));
            }
            None
        },
    }
}

/// Reads an answer of a witness. It is found exactly where the bytes are the
/// wire form of an answer, and then it is that answer.
pub fn decode_reply(bytes: &[u8]) -> (reply: Option<WitnessToIdPMessage>)
    ensures
        match reply {
            Some(reply) => reply_fits(reply@) && reply_wire(reply@) == bytes@,
            None => forall|other: ReplyView| reply_fits(other) ==> reply_wire(other) != bytes@,
        },
        forall|other: ReplyView|
            reply_fits(other) && reply_wire(other) == bytes@ ==> reply is Some && reply->0@
                == other,
{
    let reply = decode_reply_once(bytes);
    proof {
        assert forall|other: ReplyView|
            reply_fits(other) && reply_wire(other) == bytes@ implies reply is Some && reply->0@
            == other by {
            lemma_reply_wire_injective(reply->0@, other);
        }
    }
    reply
}

fn decode_reply_once(bytes: &[u8]) -> (reply: Option<WitnessToIdPMessage>)
    ensures
        match reply {
            Some(reply) => reply_fits(reply@) && reply_wire(reply@) == bytes@,
            None => forall|other: ReplyView| reply_fits(other) ==> reply_wire(other) != bytes@,
        },
{
    if bytes.len() < 2 || bytes[0] != WIRE_VERSION {
        assert forall|other: ReplyView| reply_fits(other) implies reply_wire(other) != bytes@ by {
            assert(reply_wire(other)[0] == WIRE_VERSION);
        }
        return None;
    }
    let tag = bytes[1];
    let body = slice_subrange(bytes, 2, bytes.len());
    assert forall|other: ReplyView| reply_wire(other) == bytes@ implies reply_tag(other) == tag
        && reply_body(other) == body@ by {
        assert(reply_wire(other)[1] == reply_tag(other));
        assert(reply_wire(other).subrange(2, bytes@.len() as int) =~= reply_body(other));
    }
    match tag {
        0 => match decode_vote(body) {
            Some(vote) => {
                let reply = WitnessToIdPMessage::PublishVote(Ok(vote));
                assert(reply_wire(reply@) =~= bytes@);
                Some(reply)
            },
            None => None,
        },
        1 => match decode_error_body(body) {
            Some(error) => {
                let reply = WitnessToIdPMessage::PublishVote(Err(error));
                assert(reply_wire(reply@) =~= bytes@);
                Some(reply)
            },
            None => None,
        },
        2 => match decode_state(body) {
            Some(state) => {
                let reply = WitnessToIdPMessage::State(Ok(state));
                assert(reply_wire(reply@) =~= bytes@);
                Some(reply)
            },
            None => None,
        },
        3 => match decode_error_body(body) {
            Some(error) => {
                let reply = WitnessToIdPMessage::State(Err(error));
                assert(reply_wire(reply@) =~= bytes@);
                Some(reply)
            },
            None => None,
        },
        4 => match decode_certificate(body) {
            Some(certificate) => {
                let reply = WitnessToIdPMessage::PublishCertificateResponse(Ok(certificate));
                assert(reply_wire(reply@) =~= bytes@);
                Some(reply)
            },
            None => None,
        },
        5 => match decode_error_body(body) {
            Some(error) => {
                let reply = WitnessToIdPMessage::PublishCertificateResponse(Err(error));
                assert(reply_wire(reply@) =~= bytes@);
                Some(reply)
            },
            None => None,
        },
        _ => None,
    }
}

/// Certificate verifiability. Whatever is read back from the wire form of a
/// certificate is that certificate, so it passes or fails the check against
/// a committee exactly as the certificate that was sent does.
pub proof fn lemma_certificate_survives_wire(
    sent: CertificateView,
    received: CertificateView,
    committee: &Committee,
)
    requires
        certificate_wire(received) == certificate_wire(sent),
    ensures
        received == sent,
        certificate_verdict(received, committee) == certificate_verdict(sent, committee),
        received.valid(committee) == sent.valid(committee),
{
    lemma_certificate_wire_injective(received, sent);
}

} // verus!
