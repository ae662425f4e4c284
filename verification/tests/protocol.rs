use witness::aggregator::{tally, Aggregator, CertificateGenerator, Tally};
use witness::codec::{decode_reply, decode_request, encode_reply, encode_request};
use witness::config::{Committee, Member};
use witness::crypto::KeyPair;
use witness::error::WitnessError;
use witness::messages::{
    count_authors, genesis, has_voted, quorum_verdict, signing_input, IdPToWitnessMessage, PublishCertificate, PublishCertificateQuery,
    PublishNotification, PublishVote, Root, SequenceNumber, State, WitnessToIdPMessage,
};
use witness::publisher::NotificationGenerator;
use witness::witness::{NotificationDecision, Witness};

fn keypair(seed: u8) -> KeyPair {
    KeyPair::from_secret([seed; 32])
}

fn publisher() -> KeyPair {
    keypair(100)
}

fn committee(base_port: u16) -> Committee {
    let members = (0..4u64)
        .map(|i| Member {
            id: i,
            public_key: keypair(i as u8 + 1).public,
            address: format!("127.0.0.1:{}", base_port + i as u16),
        })
        .collect();
    Committee::new(members, 3)
}

fn spawn_witnesses(committee: &Committee) -> Vec<Witness> {
    (0..4u64)
        .map(|i| Witness::new(i, keypair(i as u8 + 1), publisher().public, committee.clone()))
        .collect()
}

fn root_one() -> Root {
    [1u8; 32]
}

fn notification() -> PublishNotification {
    PublishNotification::new(root_one(), vec![7, 8, 9], 1, &publisher())
}

fn votes() -> Vec<PublishVote> {
    (0..4u64)
        .map(|i| PublishVote::new(root_one(), 1, i, &keypair(i as u8 + 1).secret))
        .collect()
}

fn certificate(root: Root, sequence_number: SequenceNumber, voters: &[u64]) -> PublishCertificate {
    PublishCertificate {
        root,
        sequence_number,
        votes: voters
            .iter()
            .map(|i| {
                let vote = PublishVote::new(root, sequence_number, *i, &keypair(*i as u8 + 1).secret);
                (vote.author, vote.signature)
            })
            .collect(),
    }
}

#[test]
fn state_query() {
    let base_port = 8_000;
    let committee = committee(base_port);
    let mut witnesses = spawn_witnesses(&committee);

    let message = IdPToWitnessMessage::StateQuery;
    let bytes = encode_request(&message);

    let expected = State {
        root: Root::default(),
        sequence_number: SequenceNumber::default(),
        lock: None,
    };

    for witness in witnesses.iter_mut() {
        let request = decode_request(&bytes).unwrap();
        let reply = encode_reply(&witness.handle_message(request, false));
        match decode_reply(&reply).unwrap() {
            WitnessToIdPMessage::State(Ok(state)) => assert_eq!(state, expected),
            _ => panic!("Unexpected protocol message"),
        }
    }
}

#[test]
fn sync_request() {
    let base_port = 8_100;
    let committee = committee(base_port);
    let mut witnesses = spawn_witnesses(&committee);

    let notification = notification();
    let certificate = PublishCertificate {
        root: notification.root.clone(),
        sequence_number: notification.sequence_number,
        votes: votes().into_iter().map(|x| (x.author, x.signature)).collect(),
    };
    let broadcast = encode_request(&IdPToWitnessMessage::PublishCertificate(certificate.clone()));
    for witness in witnesses.iter_mut() {
        let request = decode_request(&broadcast).unwrap();
        let reply = witness.handle_message(request, false);
        assert!(matches!(reply, WitnessToIdPMessage::State(Ok(_))));
    }

    let request = PublishCertificateQuery { sequence_number: notification.sequence_number };
    let bytes = encode_request(&IdPToWitnessMessage::PublishCertificateQuery(request));

    for witness in witnesses.iter_mut() {
        let request = decode_request(&bytes).unwrap();
        let reply = encode_reply(&witness.handle_message(request, false));
        match decode_reply(&reply).unwrap() {
            WitnessToIdPMessage::PublishCertificateResponse(Ok(cert)) => {
                assert_eq!(cert.root, certificate.root);
                assert_eq!(cert.sequence_number, certificate.sequence_number);
                assert_eq!(cert, certificate);
            }
            _ => panic!("Unexpected response"),
        }
    }
}

#[test]
fn sync_unknown_sequence() {
    let committee = committee(8_200);
    let mut witness = spawn_witnesses(&committee).remove(0);
    assert_eq!(witness.certificate(1), Err(WitnessError::UnknownSequence));
    assert!(witness.handle_certificate(certificate(root_one(), 1, &[0, 1, 2])).is_ok());
    assert_eq!(witness.certificate(0), Err(WitnessError::UnknownSequence));
    assert_eq!(witness.certificate(2), Err(WitnessError::UnknownSequence));
    assert_eq!(witness.certificate(u64::MAX), Err(WitnessError::UnknownSequence));
    let found = witness.certificate(1).unwrap();
    assert_eq!(found.root, root_one());
    assert_eq!(found.sequence_number, 1);
    let reply = witness.handle_message(
        IdPToWitnessMessage::PublishCertificateQuery(PublishCertificateQuery { sequence_number: 2 }),
        false,
    );
    assert_eq!(
        reply,
        WitnessToIdPMessage::PublishCertificateResponse(Err(WitnessError::UnknownSequence))
    );
}

#[test]
fn initial_state_is_genesis() {
    let committee = committee(8_300);
    let witness = spawn_witnesses(&committee).remove(2);
    assert_eq!(genesis(), [0u8; 32]);
    assert_eq!(witness.state(), State { root: [0u8; 32], sequence_number: 0, lock: None });
    assert_eq!(witness.id(), 2);
    assert_eq!(witness.pending_vote(), None);
    assert_eq!(witness.committee(), &committee);
    assert!(witness.archive().is_empty());
}

#[test]
fn four_witnesses_certify_and_commit() {
    let committee = committee(8_400);
    let mut witnesses = spawn_witnesses(&committee);
    let notification = notification();
    let mut aggregator = CertificateGenerator::new(committee.clone());

    let mut assembled = None;
    for (i, witness) in witnesses.iter_mut().take(3).enumerate() {
        assert_eq!(
            witness.proof_to_check(&notification),
            Some(([0u8; 32], root_one()))
        );
        let vote = witness.handle_notification(&notification, true).unwrap();
        assert_eq!(vote.root, root_one());
        assert_eq!(vote.sequence_number, 1);
        assert_eq!(vote.author, i as u64);
        assert_eq!(witness.state().lock, Some(1));
        assert_eq!(witness.state().sequence_number, 0);
        let outcome = aggregator.add_vote(&vote);
        if i < 2 {
            assert!(outcome.is_none());
        } else {
            assembled = outcome;
        }
    }
    let certificate = assembled.expect("the third vote completes the certificate");
    assert_eq!(certificate.root, root_one());
    assert_eq!(certificate.sequence_number, 1);
    assert_eq!(certificate.votes.len(), 3);
    let authors: Vec<u64> = certificate.votes.iter().map(|(author, _)| *author).collect();
    assert_eq!(authors, vec![0, 1, 2]);
    assert_eq!(certificate.verify(&committee), Ok(()));

    for witness in witnesses.iter_mut() {
        let state = witness.handle_certificate(certificate.clone()).unwrap();
        assert_eq!(state, State { root: root_one(), sequence_number: 1, lock: None });
        assert_eq!(witness.state(), state);
        assert_eq!(witness.certificate(1), Ok(&certificate));
    }
}

#[test]
fn second_root_for_locked_sequence_is_equivocation() {
    let committee = committee(8_500);
    let mut witness = spawn_witnesses(&committee).remove(0);
    let first = notification();
    let second = PublishNotification::new([2u8; 32], vec![1], 1, &publisher());
    let vote = witness.handle_notification(&first, true).unwrap();
    let before = witness.state();
    assert_eq!(
        witness.handle_notification(&second, true),
        Err(WitnessError::Equivocation)
    );
    assert_eq!(witness.state(), before);
    assert_eq!(witness.pending_vote(), Some(vote));
    assert_eq!(witness.proof_to_check(&second), None);
}

#[test]
fn redelivery_gives_identical_vote_bytes() {
    let committee = committee(8_600);
    let mut witness = spawn_witnesses(&committee).remove(1);
    let notification = notification();
    let first = encode_reply(&witness.handle_message(
        IdPToWitnessMessage::PublishNotification(notification.clone()),
        true,
    ));
    for proof_verified in [true, false] {
        let again = encode_reply(&witness.handle_message(
            IdPToWitnessMessage::PublishNotification(notification.clone()),
            proof_verified,
        ));
        assert_eq!(again, first);
    }
    match decode_reply(&first).unwrap() {
        WitnessToIdPMessage::PublishVote(Ok(vote)) => {
            assert_eq!(vote, PublishVote::new(root_one(), 1, 1, &keypair(2).secret));
        }
        _ => panic!("Unexpected protocol message"),
    }
}

#[test]
fn stale_and_future_notifications_are_rejected() {
    let committee = committee(8_700);
    let mut witness = spawn_witnesses(&committee).remove(0);
    for sequence_number in [0u64, 2, 3, u64::MAX] {
        let notification = PublishNotification::new(root_one(), vec![], sequence_number, &publisher());
        assert_eq!(
            witness.handle_notification(&notification, true),
            Err(WitnessError::StaleOrFutureSequence)
        );
        assert_eq!(witness.proof_to_check(&notification), None);
    }
    assert_eq!(witness.state(), State { root: [0u8; 32], sequence_number: 0, lock: None });
    assert_eq!(
        witness.handle_certificate(certificate(root_one(), 2, &[0, 1, 2])),
        Err(WitnessError::StaleOrFutureSequence)
    );
    assert_eq!(
        witness.handle_certificate(certificate(root_one(), 0, &[0, 1, 2])),
        Err(WitnessError::StaleOrFutureSequence)
    );
}

#[test]
fn notification_with_bad_signature_is_rejected() {
    let committee = committee(8_800);
    let mut witness = spawn_witnesses(&committee).remove(0);

    let stranger = PublishNotification::new(root_one(), vec![], 1, &keypair(50));
    assert!(stranger.is_signed_by(&keypair(50).public));
    assert!(!stranger.is_signed_by(&publisher().public));
    assert_eq!(
        witness.handle_notification(&stranger, true),
        Err(WitnessError::InvalidSignature)
    );

    let mut forged = stranger.clone();
    forged.author = publisher().public;
    assert_eq!(
        witness.handle_notification(&forged, true),
        Err(WitnessError::InvalidSignature)
    );

    let mut tampered = notification();
    tampered.root = [9u8; 32];
    assert_eq!(
        witness.handle_notification(&tampered, true),
        Err(WitnessError::InvalidSignature)
    );

    let mut moved = notification();
    moved.signature[0] ^= 1;
    assert_eq!(
        witness.handle_notification(&moved, true),
        Err(WitnessError::InvalidSignature)
    );
    assert_eq!(witness.state().lock, None);
    assert!(notification().is_signed_by(&publisher().public));
}

#[test]
fn notification_with_failed_proof_is_rejected() {
    let committee = committee(8_900);
    let mut witness = spawn_witnesses(&committee).remove(0);
    let notification = notification();
    assert_eq!(
        witness.handle_notification(&notification, false),
        Err(WitnessError::InvalidProof)
    );
    assert_eq!(witness.state(), State { root: [0u8; 32], sequence_number: 0, lock: None });
    assert!(witness.handle_notification(&notification, true).is_ok());
}

#[test]
fn certificate_below_quorum_is_rejected() {
    let committee = committee(9_000);
    let mut witness = spawn_witnesses(&committee).remove(0);
    let short = certificate(root_one(), 1, &[0, 1]);
    assert_eq!(short.verify(&committee), Err(WitnessError::InsufficientVotes));
    assert_eq!(
        witness.handle_certificate(short),
        Err(WitnessError::InsufficientVotes)
    );
    let empty = certificate(root_one(), 1, &[]);
    assert_eq!(empty.verify(&committee), Err(WitnessError::InsufficientVotes));
    assert_eq!(witness.state().sequence_number, 0);
}

#[test]
fn certificate_counts_each_author_once() {
    let committee = committee(9_100);
    let doubled = certificate(root_one(), 1, &[0, 1, 1]);
    assert_eq!(doubled.verify(&committee), Err(WitnessError::InsufficientVotes));
    let padded = certificate(root_one(), 1, &[0, 1, 1, 2]);
    assert_eq!(padded.verify(&committee), Ok(()));
}

#[test]
fn certificate_with_tampered_vote_fails() {
    let committee = committee(9_200);
    let mut witness = spawn_witnesses(&committee).remove(3);
    let good = certificate(root_one(), 1, &[0, 1, 2]);
    let bytes = encode_request(&IdPToWitnessMessage::PublishCertificate(good.clone()));
    match decode_request(&bytes).unwrap() {
        IdPToWitnessMessage::PublishCertificate(received) => {
            assert_eq!(received, good);
            assert_eq!(received.verify(&committee), Ok(()));
        }
        _ => panic!("Unexpected protocol message"),
    }

    let mut tampered = good.clone();
    tampered.votes[1].1[10] ^= 0x40;
    assert_eq!(tampered.verify(&committee), Err(WitnessError::InvalidSignature));
    assert_eq!(
        witness.handle_certificate(tampered),
        Err(WitnessError::InvalidSignature)
    );

    let mut other_root = good.clone();
    other_root.root = [3u8; 32];
    assert_eq!(other_root.verify(&committee), Err(WitnessError::InvalidSignature));

    let mut other_number = good.clone();
    other_number.sequence_number = 2;
    assert_eq!(other_number.verify(&committee), Err(WitnessError::InvalidSignature));

    let mut swapped = good.clone();
    swapped.votes[0].0 = 3;
    assert_eq!(swapped.verify(&committee), Err(WitnessError::InvalidSignature));

    let mut stranger = good.clone();
    stranger.votes[2].0 = 77;
    assert_eq!(stranger.verify(&committee), Err(WitnessError::InvalidSignature));
    assert_eq!(witness.state().sequence_number, 0);
}

#[test]
fn commits_advance_one_sequence_number_at_a_time() {
    let committee = committee(9_300);
    let mut witness = spawn_witnesses(&committee).remove(0);
    let first = certificate([1u8; 32], 1, &[0, 1, 2]);
    let second = certificate([2u8; 32], 2, &[1, 2, 3]);
    let third = certificate([3u8; 32], 3, &[0, 2, 3]);

    assert_eq!(
        witness.handle_certificate(second.clone()),
        Err(WitnessError::StaleOrFutureSequence)
    );
    assert_eq!(witness.handle_certificate(first.clone()).unwrap().sequence_number, 1);
    assert_eq!(
        witness.handle_certificate(certificate([9u8; 32], 1, &[0, 1, 2])),
        Err(WitnessError::StaleOrFutureSequence)
    );
    assert_eq!(
        witness.handle_certificate(third.clone()),
        Err(WitnessError::StaleOrFutureSequence)
    );
    assert_eq!(witness.handle_certificate(second.clone()).unwrap().sequence_number, 2);
    assert_eq!(witness.handle_certificate(third.clone()).unwrap().sequence_number, 3);
    assert_eq!(witness.state(), State { root: [3u8; 32], sequence_number: 3, lock: None });
    assert_eq!(witness.certificate(1), Ok(&first));
    assert_eq!(witness.certificate(2), Ok(&second));
    assert_eq!(witness.certificate(3), Ok(&third));
    assert_eq!(witness.archive().len(), 3);
}

#[test]
fn certificate_for_another_root_releases_the_lock() {
    let committee = committee(9_400);
    let mut witness = spawn_witnesses(&committee).remove(0);
    witness.handle_notification(&notification(), true).unwrap();
    assert_eq!(witness.state().lock, Some(1));
    let state = witness.handle_certificate(certificate([5u8; 32], 1, &[1, 2, 3])).unwrap();
    assert_eq!(state, State { root: [5u8; 32], sequence_number: 1, lock: None });
    let next = PublishNotification::new([6u8; 32], vec![], 2, &publisher());
    assert_eq!(witness.proof_to_check(&next), Some(([5u8; 32], [6u8; 32])));
    let vote = witness.handle_notification(&next, true).unwrap();
    assert_eq!(vote.sequence_number, 2);
    assert_eq!(witness.state().lock, Some(2));
}

#[test]
fn aggregator_emits_exactly_at_quorum() {
    let committee = committee(9_500);
    let votes = votes();
    let mut aggregator = CertificateGenerator::new(committee.clone());
    assert_eq!(aggregator.committee(), &committee);
    assert_eq!(aggregator.collected(), 0);
    assert_eq!(aggregator.add_vote(&votes[0]), None);
    assert_eq!(aggregator.add_vote(&votes[1]), None);
    assert_eq!(aggregator.collected(), 2);
    let certificate = aggregator.add_vote(&votes[2]).unwrap();
    assert_eq!(
        certificate,
        PublishCertificate {
            root: root_one(),
            sequence_number: 1,
            votes: votes[..3].iter().map(|x| (x.author, x.signature)).collect(),
        }
    );
    assert_eq!(aggregator.collected(), 0);
    assert_eq!(aggregator.add_vote(&votes[3]), None);
    assert_eq!(aggregator.add_vote(&votes[0]), None);
    assert_eq!(aggregator.add_vote(&votes[1]), None);
    assert_eq!(aggregator.add_vote(&votes[2]), None);
    assert_eq!(aggregator.collected(), 0);
}

#[test]
fn aggregator_counts_no_author_twice() {
    let committee = committee(9_600);
    let votes = votes();
    let mut aggregator = CertificateGenerator::new(committee);
    assert_eq!(aggregator.add_vote(&votes[0]), None);
    for _ in 0..5 {
        assert_eq!(aggregator.add_vote(&votes[0]), None);
    }
    assert_eq!(aggregator.collected(), 1);
    assert_eq!(aggregator.add_vote(&votes[1]), None);
    assert_eq!(aggregator.add_vote(&votes[1]), None);
    assert_eq!(aggregator.collected(), 2);
    assert!(aggregator.add_vote(&votes[3]).is_some());
}

#[test]
fn aggregator_ignores_votes_that_do_not_count() {
    let committee = committee(9_700);
    let votes = votes();
    let mut aggregator = CertificateGenerator::new(committee);

    let mut invalid = votes[0];
    invalid.signature[3] ^= 1;
    assert_eq!(aggregator.add_vote(&invalid), None);
    assert_eq!(aggregator.collected(), 0);

    let stranger = PublishVote::new(root_one(), 1, 9, &keypair(10).secret);
    assert_eq!(aggregator.add_vote(&stranger), None);
    let impostor = PublishVote::new(root_one(), 1, 0, &keypair(2).secret);
    assert_eq!(aggregator.add_vote(&impostor), None);
    assert_eq!(aggregator.collected(), 0);

    assert_eq!(aggregator.add_vote(&votes[0]), None);
    assert_eq!(aggregator.collected(), 1);

    let other_root = PublishVote::new([2u8; 32], 1, 1, &keypair(2).secret);
    assert_eq!(aggregator.add_vote(&other_root), None);
    let other_number = PublishVote::new(root_one(), 2, 1, &keypair(2).secret);
    assert_eq!(aggregator.add_vote(&other_number), None);
    assert_eq!(aggregator.collected(), 1);

    assert_eq!(aggregator.add_vote(&votes[1]), None);
    let certificate = aggregator.add_vote(&votes[2]).unwrap();
    assert_eq!(certificate.votes.len(), 3);
}

#[test]
fn aggregator_clear_starts_over() {
    let committee = committee(9_800);
    let votes = votes();
    let mut aggregator = CertificateGenerator::new(committee.clone());
    assert_eq!(aggregator.add_vote(&votes[0]), None);
    aggregator.clear();
    assert_eq!(aggregator.collected(), 0);
    assert_eq!(aggregator.committee(), &committee);
    let next: Vec<PublishVote> = (0..3u64)
        .map(|i| PublishVote::new([2u8; 32], 2, i, &keypair(i as u8 + 1).secret))
        .collect();
    assert_eq!(aggregator.add_vote(&next[0]), None);
    assert_eq!(aggregator.add_vote(&next[1]), None);
    let certificate = aggregator.add_vote(&next[2]).unwrap();
    assert_eq!(certificate.root, [2u8; 32]);
    assert_eq!(certificate.sequence_number, 2);
    aggregator.clear();
    assert_eq!(aggregator.add_vote(&votes[0]), None);
    assert_eq!(aggregator.collected(), 1);
}

#[test]
fn aggregator_with_threshold_of_one_emits_at_once() {
    let mut committee = committee(9_900);
    committee.quorum_threshold = 1;
    let votes = votes();
    let mut aggregator = CertificateGenerator::new(committee.clone());
    let certificate = aggregator.add_vote(&votes[2]).unwrap();
    assert_eq!(certificate.votes, vec![(2, votes[2].signature)]);
    assert_eq!(certificate.verify(&committee), Ok(()));
    assert_eq!(aggregator.add_vote(&votes[1]), None);
}

#[test]
fn try_make_certificate_gives_the_message_bytes() {
    let committee = committee(10_000);
    let votes = votes();
    let mut aggregator = CertificateGenerator::new(committee.clone());
    assert!(aggregator.try_make_certificate(votes[3]).is_none());
    assert!(aggregator.try_make_certificate(votes[3]).is_none());
    assert!(aggregator.try_make_certificate(votes[1]).is_none());
    let bytes = aggregator.try_make_certificate(votes[0]).unwrap();
    let expected = PublishCertificate {
        root: root_one(),
        sequence_number: 1,
        votes: vec![
            (3, votes[3].signature),
            (1, votes[1].signature),
            (0, votes[0].signature),
        ],
    };
    assert_eq!(
        decode_request(&bytes),
        Some(IdPToWitnessMessage::PublishCertificate(expected.clone()))
    );
    assert_eq!(
        bytes.to_vec(),
        encode_request(&IdPToWitnessMessage::PublishCertificate(expected))
    );
    assert!(aggregator.try_make_certificate(votes[2]).is_none());
}

#[test]
fn make_notification_gives_the_message_bytes() {
    let publisher = publisher();
    let generator = NotificationGenerator::new(&publisher, root_one(), vec![4, 5, 6]);
    let bytes = generator.make_notification(7);
    match decode_request(&bytes).unwrap() {
        IdPToWitnessMessage::PublishNotification(notification) => {
            assert_eq!(
                notification,
                PublishNotification::new(root_one(), vec![4, 5, 6], 7, &publisher)
            );
            assert_eq!(notification.root, root_one());
            assert_eq!(notification.proof, vec![4, 5, 6]);
            assert_eq!(notification.sequence_number, 7);
            assert_eq!(notification.author, publisher.public);
            assert!(notification.is_signed_by(&publisher.public));
            assert_eq!(notification, generator.notification(7));
        }
        _ => panic!("Unexpected protocol message"),
    }
    assert_ne!(generator.make_notification(8), bytes);
}

#[test]
fn votes_verify_under_the_committee_keys() {
    let committee = committee(10_100);
    for vote in votes() {
        assert!(vote.is_signed_by(&committee));
        let key = ed25519_dalek::VerifyingKey::from_bytes(
            &committee.public_key(vote.author).unwrap(),
        )
        .unwrap();
        let signature = ed25519_dalek::Signature::from_bytes(&vote.signature);
        assert!(key
            .verify_strict(&signing_input(&vote.root, vote.sequence_number), &signature)
            .is_ok());
        let mut wrong = vote;
        wrong.author = (vote.author + 1) % 4;
        assert!(!wrong.is_signed_by(&committee));
        let mut unknown = vote;
        unknown.author = 4;
        assert!(!unknown.is_signed_by(&committee));
    }
}

#[test]
fn key_pair_of_a_known_seed() {
    let secret: [u8; 32] = [
        0x9d, 0x61, 0xb1, 0x9d, 0xef, 0xfd, 0x5a, 0x60, 0xba, 0x84, 0x4a, 0xf4, 0x92, 0xec, 0x2c,
        0xc4, 0x44, 0x49, 0xc5, 0x69, 0x7b, 0x32, 0x69, 0x19, 0x70, 0x3b, 0xac, 0x03, 0x1c, 0xae,
        0x7f, 0x60,
    ];
    let public: [u8; 32] = [
        215, 90, 152, 1, 130, 177, 10, 183, 213, 75, 254, 211, 201, 100, 7, 58, 14, 225, 114, 243,
        218, 166, 35, 37, 175, 2, 26, 104, 247, 7, 81, 26,
    ];
    let pair = KeyPair::from_secret(secret);
    assert_eq!(pair.secret, secret);
    assert_eq!(pair.public, public);
}

#[test]
fn signing_input_is_root_then_number() {
    let mut expected = vec![1u8; 32];
    expected.extend_from_slice(&[2, 1, 0, 0, 0, 0, 0, 0]);
    assert_eq!(signing_input(&root_one(), 258), expected);
}

#[test]
fn committee_lookups() {
    let committee = committee(10_200);
    assert_eq!(committee.quorum_threshold(), 3);
    assert_eq!(committee.size(), 4);
    assert_eq!(committee.public_key(2), Some(keypair(3).public));
    assert_eq!(committee.public_key(4), None);
    assert_eq!(
        committee.witnesses_addresses(),
        vec![
            (0, "127.0.0.1:10200".to_string()),
            (1, "127.0.0.1:10201".to_string()),
            (2, "127.0.0.1:10202".to_string()),
            (3, "127.0.0.1:10203".to_string()),
        ]
    );
    let mut repeated = committee.clone();
    repeated.members[3].id = 0;
    assert_eq!(repeated.public_key(0), Some(keypair(1).public));
    assert_eq!(repeated.public_key(3), None);
}

#[test]
fn restart_brings_back_what_was_persisted() {
    let committee = committee(10_300);
    let mut witness = spawn_witnesses(&committee).remove(1);
    witness.handle_certificate(certificate([1u8; 32], 1, &[0, 1, 2])).unwrap();
    let next = PublishNotification::new([2u8; 32], vec![], 2, &publisher());
    let vote = witness.handle_notification(&next, true).unwrap();

    let archive = witness.archive().clone();
    let pending = witness.pending_vote();
    let mut restored = Witness::restore(
        1,
        keypair(2),
        publisher().public,
        committee.clone(),
        pending,
        archive.clone(),
    )
    .unwrap();
    assert_eq!(restored.state(), witness.state());
    assert_eq!(restored.state(), State { root: [1u8; 32], sequence_number: 1, lock: Some(2) });
    assert_eq!(restored.handle_notification(&next, false), Ok(vote));
    let other = PublishNotification::new([3u8; 32], vec![], 2, &publisher());
    assert_eq!(
        restored.handle_notification(&other, true),
        Err(WitnessError::Equivocation)
    );

    let unlocked = Witness::restore(1, keypair(2), publisher().public, committee.clone(), None, archive.clone())
        .unwrap();
    assert_eq!(unlocked.state(), State { root: [1u8; 32], sequence_number: 1, lock: None });

    let fresh = Witness::restore(1, keypair(2), publisher().public, committee.clone(), None, vec![]).unwrap();
    assert_eq!(fresh.state(), State { root: [0u8; 32], sequence_number: 0, lock: None });
}

#[test]
fn restart_rejects_what_is_inconsistent() {
    let committee = committee(10_400);
    let good = certificate([1u8; 32], 1, &[0, 1, 2]);
    let restore = |pending: Option<PublishVote>, archive: Vec<PublishCertificate>| {
        Witness::restore(1, keypair(2), publisher().public, committee.clone(), pending, archive)
            .is_some()
    };
    assert!(restore(None, vec![good.clone()]));
    assert!(!restore(None, vec![certificate([1u8; 32], 2, &[0, 1, 2])]));
    assert!(!restore(None, vec![good.clone(), good.clone()]));
    assert!(!restore(None, vec![certificate([1u8; 32], 1, &[0, 1])]));
    let mut tampered = good.clone();
    tampered.votes[0].1[0] ^= 1;
    assert!(!restore(None, vec![tampered]));
    let own = PublishVote::new([2u8; 32], 2, 1, &keypair(2).secret);
    assert!(restore(Some(own), vec![good.clone()]));
    assert!(!restore(Some(own), vec![]));
    let overtaken = PublishVote::new([1u8; 32], 1, 1, &keypair(2).secret);
    assert!(restore(Some(overtaken), vec![good.clone()]));
    let foreign_overtaken = PublishVote::new([1u8; 32], 1, 0, &keypair(1).secret);
    assert!(restore(Some(foreign_overtaken), vec![good.clone()]));
    let foreign = PublishVote::new([2u8; 32], 2, 0, &keypair(1).secret);
    assert!(!restore(Some(foreign), vec![good.clone()]));
    let late = PublishVote::new([2u8; 32], 3, 1, &keypair(2).secret);
    assert!(!restore(Some(late), vec![good]));
}

#[test]
fn restart_drops_a_vote_that_a_commit_overtook() {
    let committee = committee(10_500);
    let good = certificate([1u8; 32], 1, &[0, 1, 2]);
    let overtaken = PublishVote::new([1u8; 32], 1, 1, &keypair(2).secret);
    let witness = Witness::restore(
        1,
        keypair(2),
        publisher().public,
        committee,
        Some(overtaken),
        vec![good],
    )
    .unwrap();
    assert_eq!(witness.pending_vote(), None);
    assert_eq!(witness.state(), State { root: [1u8; 32], sequence_number: 1, lock: None });
}

#[test]
fn notification_decisions() {
    let committee = committee(10_600);
    let mut witness = spawn_witnesses(&committee).remove(0);
    let stale = NotificationDecision::Reject(WitnessError::StaleOrFutureSequence);
    for (signed, proof_verified) in [(false, false), (false, true), (true, false), (true, true)] {
        assert_eq!(witness.decide(&root_one(), 0, signed, proof_verified), stale);
        assert_eq!(witness.decide(&root_one(), 2, signed, proof_verified), stale);
    }
    assert_eq!(
        witness.decide(&root_one(), 1, false, true),
        NotificationDecision::Reject(WitnessError::InvalidSignature)
    );
    assert_eq!(
        witness.decide(&root_one(), 1, false, false),
        NotificationDecision::Reject(WitnessError::InvalidSignature)
    );
    assert_eq!(
        witness.decide(&root_one(), 1, true, false),
        NotificationDecision::Reject(WitnessError::InvalidProof)
    );
    assert_eq!(witness.decide(&root_one(), 1, true, true), NotificationDecision::Vote);
    assert_eq!(witness.state().lock, None);

    let vote = witness.handle_notification(&notification(), true).unwrap();
    for (signed, proof_verified) in [(false, false), (false, true), (true, false), (true, true)] {
        assert_eq!(
            witness.decide(&root_one(), 1, signed, proof_verified),
            NotificationDecision::Resend(vote)
        );
        assert_eq!(
            witness.decide(&[2u8; 32], 1, signed, proof_verified),
            NotificationDecision::Reject(WitnessError::Equivocation)
        );
        assert_eq!(witness.decide(&root_one(), 2, signed, proof_verified), stale);
    }
}

#[test]
fn quorum_verdicts() {
    assert_eq!(quorum_verdict(2, 3, true), Err(WitnessError::InsufficientVotes));
    assert_eq!(quorum_verdict(2, 3, false), Err(WitnessError::InsufficientVotes));
    assert_eq!(quorum_verdict(3, 3, false), Err(WitnessError::InvalidSignature));
    assert_eq!(quorum_verdict(3, 3, true), Ok(()));
    assert_eq!(quorum_verdict(4, 3, true), Ok(()));
    assert_eq!(quorum_verdict(0, 0, true), Ok(()));
    assert_eq!(quorum_verdict(0, 1, true), Err(WitnessError::InsufficientVotes));
    assert_eq!(quorum_verdict(usize::MAX, u64::MAX, false), Err(WitnessError::InvalidSignature));
}

#[test]
fn tally_decisions() {
    assert_eq!(tally(false, true, false, true, 0, 3), Tally::Keep);
    assert_eq!(tally(false, true, false, true, 1, 3), Tally::Keep);
    assert_eq!(tally(false, true, false, true, 2, 3), Tally::Complete);
    assert_eq!(tally(false, true, false, true, 0, 1), Tally::Complete);
    assert_eq!(tally(false, true, false, true, 0, 0), Tally::Complete);
    assert_eq!(tally(true, true, false, true, 2, 3), Tally::Ignore);
    assert_eq!(tally(false, false, false, true, 2, 3), Tally::Ignore);
    assert_eq!(tally(false, true, true, true, 2, 3), Tally::Ignore);
    assert_eq!(tally(false, true, false, false, 2, 3), Tally::Ignore);
    assert_eq!(tally(false, true, false, true, usize::MAX, u64::MAX), Tally::Complete);
    assert_eq!(tally(false, true, false, true, 5, u64::MAX), Tally::Keep);
}

#[test]
fn votes_of_a_certificate_are_checked_one_by_one() {
    let committee = committee(10_700);
    let good = certificate(root_one(), 1, &[0, 1]);
    assert!(good.votes_signed(&committee));
    assert_eq!(good.verify(&committee), Err(WitnessError::InsufficientVotes));
    let mut bad = certificate(root_one(), 1, &[0, 1, 2, 3]);
    bad.votes[3].1[63] ^= 0x80;
    assert!(!bad.votes_signed(&committee));
    assert!(certificate(root_one(), 1, &[]).votes_signed(&committee));
    assert_eq!(good.copy(), good);
}

#[test]
fn aggregator_tracks_the_first_proposal() {
    let committee = committee(10_800);
    let votes = votes();
    let other = PublishVote::new([2u8; 32], 1, 1, &keypair(2).secret);
    let mut aggregator = CertificateGenerator::new(committee);
    assert!(aggregator.on_proposal(&votes[0]));
    assert!(aggregator.on_proposal(&other));
    assert_eq!(aggregator.add_vote(&other), None);
    assert!(aggregator.on_proposal(&other));
    assert!(!aggregator.on_proposal(&votes[0]));
    assert_eq!(aggregator.add_vote(&votes[0]), None);
    assert_eq!(aggregator.collected(), 1);
}

#[test]
fn certification_over_the_wire() {
    let committee = committee(10_900);
    let mut witnesses = spawn_witnesses(&committee);
    let publisher = publisher();
    let generator = NotificationGenerator::new(&publisher, root_one(), vec![1, 2, 3]);
    let mut aggregator = CertificateGenerator::new(committee.clone());

    let announcement = generator.make_notification(1);
    let mut broadcast = None;
    for witness in witnesses.iter_mut().skip(1) {
        let request = decode_request(&announcement).unwrap();
        let reply = encode_reply(&witness.handle_message(request, true));
        let vote = match decode_reply(&reply).unwrap() {
            WitnessToIdPMessage::PublishVote(Ok(vote)) => vote,
            _ => panic!("Unexpected protocol message"),
        };
        assert!(broadcast.is_none());
        broadcast = aggregator.try_make_certificate(vote);
    }
    let broadcast = broadcast.expect("three votes make the certificate");

    for witness in witnesses.iter_mut() {
        let request = decode_request(&broadcast).unwrap();
        let reply = encode_reply(&witness.handle_message(request, false));
        assert_eq!(
            decode_reply(&reply),
            Some(WitnessToIdPMessage::State(Ok(State {
                root: root_one(),
                sequence_number: 1,
                lock: None,
            })))
        );
    }
    for witness in witnesses.iter_mut() {
        let request = decode_request(&broadcast).unwrap();
        assert_eq!(
            witness.handle_message(request, false),
            WitnessToIdPMessage::State(Err(WitnessError::StaleOrFutureSequence))
        );
        assert_eq!(witness.state().sequence_number, 1);
    }
}

#[test]
fn aggregator_counts_each_proposal_apart() {
    let committee = committee(11_000);
    let first = votes();
    let second: Vec<PublishVote> = (0..4u64)
        .map(|i| PublishVote::new([2u8; 32], 1, i, &keypair(i as u8 + 1).secret))
        .collect();
    let later: Vec<PublishVote> = (0..4u64)
        .map(|i| PublishVote::new(root_one(), 2, i, &keypair(i as u8 + 1).secret))
        .collect();
    let mut aggregator = Aggregator::new(committee.clone());
    assert_eq!(aggregator.committee(), &committee);
    assert_eq!(aggregator.collected(&root_one(), 1), 0);

    assert_eq!(aggregator.add_vote(&first[0]), None);
    assert_eq!(aggregator.add_vote(&second[0]), None);
    assert_eq!(aggregator.add_vote(&later[0]), None);
    assert_eq!(aggregator.add_vote(&first[1]), None);
    assert_eq!(aggregator.add_vote(&second[1]), None);
    assert_eq!(aggregator.add_vote(&first[1]), None);
    assert_eq!(aggregator.collected(&root_one(), 1), 2);
    assert_eq!(aggregator.collected(&[2u8; 32], 1), 2);
    assert_eq!(aggregator.collected(&root_one(), 2), 1);
    assert_eq!(aggregator.collected(&[2u8; 32], 2), 0);

    let mut invalid = later[1];
    invalid.signature[0] ^= 1;
    assert_eq!(aggregator.add_vote(&invalid), None);
    assert_eq!(aggregator.collected(&root_one(), 2), 1);

    let certificate = aggregator.add_vote(&second[3]).unwrap();
    assert_eq!(certificate.root, [2u8; 32]);
    assert_eq!(certificate.sequence_number, 1);
    assert_eq!(
        certificate.votes,
        vec![
            (0, second[0].signature),
            (1, second[1].signature),
            (3, second[3].signature),
        ]
    );
    assert_eq!(certificate.verify(&committee), Ok(()));
    assert_eq!(aggregator.add_vote(&second[2]), None);
    assert_eq!(aggregator.collected(&[2u8; 32], 1), 0);
    assert_eq!(aggregator.collected(&root_one(), 1), 2);

    let certificate = aggregator.add_vote(&first[2]).unwrap();
    assert_eq!(certificate.root, root_one());
    assert_eq!(certificate.votes.len(), 3);
    assert_eq!(aggregator.add_vote(&first[3]), None);
    assert_eq!(aggregator.collected(&root_one(), 2), 1);
}

#[test]
fn aggregator_forgets_one_proposal() {
    let committee = committee(11_100);
    let first = votes();
    let second: Vec<PublishVote> = (0..4u64)
        .map(|i| PublishVote::new([2u8; 32], 2, i, &keypair(i as u8 + 1).secret))
        .collect();
    let mut aggregator = Aggregator::new(committee);
    aggregator.forget(&root_one(), 1);
    for vote in first.iter().take(3) {
        aggregator.add_vote(vote);
    }
    assert_eq!(aggregator.add_vote(&second[0]), None);
    assert_eq!(aggregator.add_vote(&first[3]), None);
    aggregator.forget(&root_one(), 1);
    assert_eq!(aggregator.collected(&[2u8; 32], 2), 1);
    assert_eq!(aggregator.add_vote(&first[3]), None);
    assert_eq!(aggregator.collected(&root_one(), 1), 1);
    assert_eq!(aggregator.add_vote(&first[0]), None);
    assert!(aggregator.add_vote(&first[1]).is_some());
    aggregator.forget(&[2u8; 32], 2);
    assert_eq!(aggregator.collected(&[2u8; 32], 2), 0);
    aggregator.forget(&[9u8; 32], 9);
}

#[test]
fn authors_are_counted_once_each() {
    let votes = vec![(3u64, [0u8; 64]), (1, [1u8; 64]), (3, [2u8; 64]), (1, [3u8; 64]), (7, [4u8; 64])];
    assert_eq!(count_authors(&votes), 3);
    assert_eq!(count_authors(&vec![]), 0);
    assert_eq!(count_authors(&vec![(5, [0u8; 64])]), 1);
    assert!(has_voted(&votes, 5, 7));
    assert!(!has_voted(&votes, 4, 7));
    assert!(has_voted(&votes, 1, 3));
    assert!(!has_voted(&votes, 0, 3));
    assert!(!has_voted(&votes, 5, 2));
}
