//! What a publisher prepares: the entries of a test directory and signed
//! notifications in their wire form.

use crate::buffer::{
    big_endian, buffer_bytes, buffer_freeze, buffer_put_u64, buffer_resize, buffer_split,
    buffer_with_capacity, bytes_from_vec, bytes_to_vec, frozen_bytes, resized,
};
use crate::codec::{encode_request, request_wire};
use crate::crypto::{signature_of, KeyPair};
use crate::messages::{
    signed_bytes, IdPToWitnessMessage, NotificationView, PublishNotification, RequestView, Root,
    SequenceNumber,
};
use crate::encoding::copy_bytes;
use bytes::Bytes;
use vstd::prelude::*;

verus! {

/// The length of the keys and values of a test directory.
pub const ENTRY_SIZE: usize = 32;

/// The key, and the value, of entry `index` of a test directory: the index
/// as eight bytes, the most significant first, and then zeros up to 32 bytes.
pub open spec fn entry_bytes(index: u64) -> Seq<u8> {
    big_endian(index) + Seq::new(24, |i: int| 0u8)
}

/// The key-value pairs of a test directory with `entries` entries: entry `i`
/// has `entry_bytes(i)` as its key and as its value.
pub fn directory_entries(entries: u64) -> (items: Vec<(Vec<u8>, Vec<u8>)>)
    ensures
        items@.len() == entries,
        forall|i: int|
            0 <= i < entries ==> (#[trigger] items@[i]).0@ == entry_bytes(i as u64) && items@[i].1@
                == entry_bytes(i as u64),
{
    let mut key = buffer_with_capacity(ENTRY_SIZE);
    let mut value = buffer_with_capacity(ENTRY_SIZE);
    let mut items: Vec<(Vec<u8>, Vec<u8>)> = Vec::new();
    let mut i: u64 = 0;
    while i < entries
        invariant
            i <= entries,
            items@.len() == i,
            buffer_bytes(key) == Seq::<u8>::empty(),
            buffer_bytes(value) == Seq::<u8>::empty(),
            forall|j: int|
                0 <= j < i ==> (#[trigger] items@[j]).0@ == entry_bytes(j as u64) && items@[j].1@
                    == entry_bytes(j as u64),
        decreases entries - i,
    {
        buffer_put_u64(&mut key, i);
        buffer_resize(&mut key, ENTRY_SIZE, 0u8);
        let k = buffer_freeze(buffer_split(&mut key));

        buffer_put_u64(&mut value, i);
        buffer_resize(&mut value, ENTRY_SIZE, 0u8);
        let v = buffer_freeze(buffer_split(&mut value));

        let item = (bytes_to_vec(&k), bytes_to_vec(&v));
        proof {
            assert(Seq::<u8>::empty() + big_endian(i) =~= big_endian(i));
            assert(resized(big_endian(i), 32, 0u8) =~= entry_bytes(i));
        }
        let ghost before = items@;
        items.push(item);
        proof {
            assert forall|j: int| 0 <= j < i + 1 implies (#[trigger] items@[j]).0@ == entry_bytes(
                j as u64,
            ) && items@[j].1@ == entry_bytes(j as u64) by {
                if j < i {
                    assert(items@[j] == before[j]);
                }
            }
        }
        i += 1;
    }
    items
}

/// Makes notifications for one root and one proof, signed by the publisher.
pub struct NotificationGenerator<'a> {
    keypair: &'a KeyPair,
    root: Root,
    proof: Vec<u8>,
}

impl<'a> NotificationGenerator<'a> {
    /// The key pair that signs the notifications.
    pub closed spec fn keypair(&self) -> KeyPair {
        *self.keypair
    }

    /// The root that every notification announces.
    pub closed spec fn root(&self) -> Root {
        self.root
    }

    /// The proof that every notification carries.
    pub closed spec fn proof_bytes(&self) -> Seq<u8> {
        self.proof@
    }

    /// Whether `notification` is the one that this generator makes for
    /// `sequence_number`: its root and proof, signed with its key pair.
    pub open spec fn makes(&self, notification: NotificationView, sequence_number: SequenceNumber) -> bool {
        &&& notification.root == self.root()
        &&& notification.proof == self.proof_bytes()
        &&& notification.sequence_number == sequence_number
        &&& notification.author == self.keypair().public
        &&& notification.signature@ == signature_of(
            self.keypair().secret@,
            signed_bytes(self.root(), sequence_number),
        )
    }

    /// A generator of notifications for `root`, each with `proof` as its
    /// audit proof and signed with `keypair`.
    pub fn new(keypair: &'a KeyPair, root: Root, proof: Vec<u8>) -> (generator: NotificationGenerator<'a>)
        ensures
            generator.keypair() == *keypair,
            generator.root() == root,
            generator.proof_bytes() == proof@,
    {
        NotificationGenerator { keypair, root, proof }
    }

    /// The notification for `sequence_number`.
    pub fn notification(&self, sequence_number: SequenceNumber) -> (notification: PublishNotification)
        ensures
            self.makes(notification@, sequence_number),
    {
        let proof = copy_bytes(self.proof.as_slice());
        PublishNotification::new(self.root, proof, sequence_number, self.keypair)
    }

    /// The wire form of the message that carries the notification for
    /// `sequence_number`.
    pub fn make_notification(&self, sequence_number: SequenceNumber) -> (message: Bytes)
        ensures
            exists|notification: NotificationView| #[trigger]
                self.makes(notification, sequence_number) && frozen_bytes(message) == request_wire(
                    RequestView::PublishNotification(notification),
                ),
    {
        let notification = self.notification(sequence_number);
        let ghost view = notification@;
        let request = IdPToWitnessMessage::PublishNotification(notification);
        let serialized = encode_request(&request);
        let message = bytes_from_vec(serialized);
        proof {
            assert(self.makes(view, sequence_number));
        }
        message
    }
}

} // verus!
