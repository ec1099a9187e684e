use vstd::prelude::*;

verus! {

/// The sole entity of the store: a fixed-size user record. Every field is a
/// fixed-width opaque byte array (any string encoding is the caller's
/// concern), so the record's total size is known at creation time and never
/// changes.
#[derive(Clone, Copy)]
pub struct UserProfile {
    /// The public key of the only account permitted to mutate this record
    /// after creation; immutable once set.
    pub authority: [u8; 32],
    pub username: [u8; 16],
    pub emoji: [u8; 4],
    pub gender: [u8; 8],
    pub pin: [u8; 4],
}

/// The mathematical model of a record: each field as a byte sequence.
pub ghost struct ProfileView {
    pub authority: Seq<u8>,
    pub username: Seq<u8>,
    pub emoji: Seq<u8>,
    pub gender: Seq<u8>,
    pub pin: Seq<u8>,
}

impl ProfileView {
    /// Every field has its declared fixed width.
    pub open spec fn wf(self) -> bool {
        &&& self.authority.len() == 32
        &&& self.username.len() == 16
        &&& self.emoji.len() == 4
        &&& self.gender.len() == 8
        &&& self.pin.len() == 4
    }
}

impl View for UserProfile {
    type V = ProfileView;

    open spec fn view(&self) -> ProfileView {
        ProfileView {
            authority: self.authority@,
            username: self.username@,
            emoji: self.emoji@,
            gender: self.gender@,
            pin: self.pin@,
        }
    }
}

impl UserProfile {
    pub fn new(
        authority: [u8; 32],
        username: [u8; 16],
        emoji: [u8; 4],
        gender: [u8; 8],
        pin: [u8; 4],
    ) -> (r: UserProfile)
        ensures
            r@ == (ProfileView {
                authority: authority@,
                username: username@,
                emoji: emoji@,
                gender: gender@,
                pin: pin@,
            }),
    {
        UserProfile { authority, username, emoji, gender, pin }
    }
}

} // verus!
