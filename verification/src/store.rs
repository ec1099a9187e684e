use crate::errors::ProfileError;
use crate::pda::derive_profile_address;
use crate::pda::derived_profile_slot;
use crate::profile::ProfileView;
use crate::profile::UserProfile;
use vstd::pervasive::VecAdditionalExecFns;
use vstd::prelude::*;

verus! {

/// One occupied storage slot: a derived address and the record it holds.
pub struct StoredRecord {
    pub address: [u8; 32],
    pub profile: UserProfile,
}

/// The ledger's account storage, modeled as a map from derived addresses to
/// profile records. The store itself holds no global state beyond that map:
/// each operation is a pure function of the current contents, the operation's
/// arguments and the signer's identity.
pub struct ProfileStore {
    records: Vec<StoredRecord>,
}

/// The map a sequence of stored records denotes: each record's profile keyed
/// by its address.
pub open spec fn store_map_of(s: Seq<StoredRecord>) -> Map<Seq<u8>, ProfileView>
    decreases s.len(),
{
    if s.len() == 0 {
        Map::empty()
    } else {
        store_map_of(s.drop_last()).insert(s.last().address@, s.last().profile@)
    }
}

/// No two stored records occupy the same address.
pub open spec fn distinct_addresses(s: Seq<StoredRecord>) -> bool {
    forall|i: int, j: int| 0 <= i < j < s.len() ==> s[i].address@ != s[j].address@
}

/// An address is in the denoted map exactly when some record occupies it.
pub proof fn lemma_store_map_contains(s: Seq<StoredRecord>, a: Seq<u8>)
    ensures
        store_map_of(s).contains_key(a) <==> exists|i: int|
            0 <= i < s.len() && s[i].address@ == a,
    decreases s.len(),
{
    if s.len() > 0 {
        lemma_store_map_contains(s.drop_last(), a);
        if s.last().address@ == a {
            assert(s[s.len() - 1].address@ == a);
        } else if store_map_of(s).contains_key(a) {
            let i = choose|i: int| 0 <= i < s.drop_last().len() && s.drop_last()[i].address@ == a;
            assert(s[i].address@ == a);
        } else if exists|i: int| 0 <= i < s.len() && s[i].address@ == a {
            let i = choose|i: int| 0 <= i < s.len() && s[i].address@ == a;
            assert(s.drop_last()[i].address@ == a);
        }
    }
}

/// Under distinct addresses, the denoted map sends each record's address to
/// exactly that record's profile.
pub proof fn lemma_store_map_at(s: Seq<StoredRecord>, i: int)
    requires
        distinct_addresses(s),
        0 <= i < s.len(),
    ensures
        store_map_of(s).contains_key(s[i].address@),
        store_map_of(s)[s[i].address@] == s[i].profile@,
    decreases s.len(),
{
    if i == s.len() - 1 {
    } else {
        lemma_store_map_at(s.drop_last(), i);
        assert(s.drop_last()[i] == s[i]);
        assert(s[i].address@ != s.last().address@);
    }
}

/// Replacing one record by another at the same address updates the denoted
/// map at that address alone.
pub proof fn lemma_store_map_update(s: Seq<StoredRecord>, i: int, r: StoredRecord)
    requires
        distinct_addresses(s),
        0 <= i < s.len(),
        r.address@ == s[i].address@,
    ensures
        store_map_of(s.update(i, r)) == store_map_of(s).insert(r.address@, r.profile@),
    decreases s.len(),
{
    let s2 = s.update(i, r);
    if i == s.len() - 1 {
        assert(s2.drop_last() =~= s.drop_last());
        assert(store_map_of(s2) =~= store_map_of(s).insert(r.address@, r.profile@));
    } else {
        lemma_store_map_update(s.drop_last(), i, r);
        assert(s2.drop_last() =~= s.drop_last().update(i, r));
        assert(s2.last() == s.last());
        assert(s[i].address@ != s.last().address@);
        assert(store_map_of(s2) =~= store_map_of(s).insert(r.address@, r.profile@));
    }
}

/// Appending a record at a fresh address extends the denoted map by one entry.
pub proof fn lemma_store_map_push(s: Seq<StoredRecord>, r: StoredRecord)
    ensures
        store_map_of(s.push(r)) == store_map_of(s).insert(r.address@, r.profile@),
{
    assert(s.push(r).drop_last() =~= s);
}

/// The create transition over the map model: fails, leaving the map as it
/// was, when the address is already occupied; otherwise installs a record
/// whose authority is the requesting key and whose data fields are the four
/// arguments.
pub open spec fn spec_initialize(
    m: Map<Seq<u8>, ProfileView>,
    addr: Seq<u8>,
    authority: Seq<u8>,
    username: Seq<u8>,
    emoji: Seq<u8>,
    gender: Seq<u8>,
    pin: Seq<u8>,
) -> (Result<(), ProfileError>, Map<Seq<u8>, ProfileView>) {
    if m.contains_key(addr) {
        (Err(ProfileError::AlreadyInitialized), m)
    } else {
        (Ok(()), m.insert(addr, ProfileView { authority, username, emoji, gender, pin }))
    }
}

/// The update transition over the map model: fails, leaving the map as it
/// was, when the address holds no record or the signer is not the stored
/// authority; otherwise overwrites the four data fields and keeps the
/// authority untouched.
pub open spec fn spec_update(
    m: Map<Seq<u8>, ProfileView>,
    addr: Seq<u8>,
    signer: Seq<u8>,
    username: Seq<u8>,
    emoji: Seq<u8>,
    gender: Seq<u8>,
    pin: Seq<u8>,
) -> (Result<(), ProfileError>, Map<Seq<u8>, ProfileView>) {
    if !m.contains_key(addr) {
        (Err(ProfileError::RecordNotFound), m)
    } else if m[addr].authority != signer {
        (Err(ProfileError::AuthorityMismatch), m)
    } else {
        (
            Ok(()),
            m.insert(
                addr,
                ProfileView { authority: m[addr].authority, username, emoji, gender, pin },
            ),
        )
    }
}

/// Create-then-read: a successful create installs at the given address a
/// record carrying exactly the requesting key as authority and the four
/// supplied data fields.
pub proof fn lemma_create_then_read(
    m: Map<Seq<u8>, ProfileView>,
    addr: Seq<u8>,
    k: Seq<u8>,
    u: Seq<u8>,
    e: Seq<u8>,
    g: Seq<u8>,
    p: Seq<u8>,
)
    requires
        !m.contains_key(addr),
    ensures
        ({
            let (r, m2) = spec_initialize(m, addr, k, u, e, g, p);
            &&& r is Ok
            &&& m2.contains_key(addr)
            &&& m2[addr] == (ProfileView { authority: k, username: u, emoji: e, gender: g, pin: p })
        }),
{
}

/// Double-create rejection: once a create has succeeded at an address, a
/// second create there fails with `AlreadyInitialized` and its fields are
/// never applied — the map is exactly what the first create left.
pub proof fn lemma_double_create_rejected(
    m: Map<Seq<u8>, ProfileView>,
    addr: Seq<u8>,
    k: Seq<u8>,
    u1: Seq<u8>,
    e1: Seq<u8>,
    g1: Seq<u8>,
    p1: Seq<u8>,
    u2: Seq<u8>,
    e2: Seq<u8>,
    g2: Seq<u8>,
    p2: Seq<u8>,
)
    requires
        !m.contains_key(addr),
    ensures
        ({
            let (r1, m1) = spec_initialize(m, addr, k, u1, e1, g1, p1);
            let (r2, m2) = spec_initialize(m1, addr, k, u2, e2, g2, p2);
            &&& r1 is Ok
            &&& r2 == Err::<(), ProfileError>(ProfileError::AlreadyInitialized)
            &&& m2 == m1
            &&& m2[addr] == (ProfileView {
                authority: k,
                username: u1,
                emoji: e1,
                gender: g1,
                pin: p1,
            })
        }),
{
}

/// Update-by-owner: after a create for key `k`, an update at the same address
/// signed by `k` succeeds, overwrites exactly the four data fields, and
/// leaves the authority equal to `k`.
pub proof fn lemma_update_by_owner(
    m: Map<Seq<u8>, ProfileView>,
    addr: Seq<u8>,
    k: Seq<u8>,
    u1: Seq<u8>,
    e1: Seq<u8>,
    g1: Seq<u8>,
    p1: Seq<u8>,
    u2: Seq<u8>,
    e2: Seq<u8>,
    g2: Seq<u8>,
    p2: Seq<u8>,
)
    requires
        !m.contains_key(addr),
    ensures
        ({
            let (r1, m1) = spec_initialize(m, addr, k, u1, e1, g1, p1);
            let (r2, m2) = spec_update(m1, addr, k, u2, e2, g2, p2);
            &&& r1 is Ok
            &&& r2 is Ok
            &&& m2[addr] == (ProfileView {
                authority: k,
                username: u2,
                emoji: e2,
                gender: g2,
                pin: p2,
            })
            &&& m2.dom() == m1.dom()
        }),
{
    let (r1, m1) = spec_initialize(m, addr, k, u1, e1, g1, p1);
    let (r2, m2) = spec_update(m1, addr, k, u2, e2, g2, p2);
    assert(m2.dom() =~= m1.dom());
}

/// Update-by-non-owner rejection: after a create for key `k`, an update
/// signed by any other key fails with `AuthorityMismatch` and the stored
/// record keeps its original values.
pub proof fn lemma_update_by_non_owner_rejected(
    m: Map<Seq<u8>, ProfileView>,
    addr: Seq<u8>,
    k: Seq<u8>,
    other: Seq<u8>,
    u1: Seq<u8>,
    e1: Seq<u8>,
    g1: Seq<u8>,
    p1: Seq<u8>,
    u2: Seq<u8>,
    e2: Seq<u8>,
    g2: Seq<u8>,
    p2: Seq<u8>,
)
    requires
        !m.contains_key(addr),
        other != k,
    ensures
        ({
            let (r1, m1) = spec_initialize(m, addr, k, u1, e1, g1, p1);
            let (r2, m2) = spec_update(m1, addr, other, u2, e2, g2, p2);
            &&& r1 is Ok
            &&& r2 == Err::<(), ProfileError>(ProfileError::AuthorityMismatch)
            &&& m2 == m1
            &&& m2[addr] == (ProfileView {
                authority: k,
                username: u1,
                emoji: e1,
                gender: g1,
                pin: p1,
            })
        }),
{
}

/// Authority immutability: whatever an update does, the record at the
/// address keeps its stored authority, and no other slot changes at all.
pub proof fn lemma_update_preserves_authority(
    m: Map<Seq<u8>, ProfileView>,
    addr: Seq<u8>,
    signer: Seq<u8>,
    u: Seq<u8>,
    e: Seq<u8>,
    g: Seq<u8>,
    p: Seq<u8>,
)
    requires
        m.contains_key(addr),
    ensures
        ({
            let (r, m2) = spec_update(m, addr, signer, u, e, g, p);
            &&& m2.contains_key(addr)
            &&& m2[addr].authority == m[addr].authority
            &&& forall|a: Seq<u8>|
                #![auto]
                a != addr && m.contains_key(a) ==> m2.contains_key(a) && m2[a] == m[a]
        }),
{
}

/// Record independence: a create touches no slot but the one it installs;
/// every record stored elsewhere is left exactly as it was.
pub proof fn lemma_initialize_touches_only_its_slot(
    m: Map<Seq<u8>, ProfileView>,
    addr: Seq<u8>,
    k: Seq<u8>,
    u: Seq<u8>,
    e: Seq<u8>,
    g: Seq<u8>,
    p: Seq<u8>,
)
    ensures
        ({
            let (r, m2) = spec_initialize(m, addr, k, u, e, g, p);
            forall|a: Seq<u8>|
                #![auto]
                a != addr && m.contains_key(a) ==> m2.contains_key(a) && m2[a] == m[a]
        }),
{
}

/// Update-without-create rejection: an update at an address where no record
/// exists fails with `RecordNotFound` and changes nothing.
pub proof fn lemma_update_without_create_rejected(
    m: Map<Seq<u8>, ProfileView>,
    addr: Seq<u8>,
    signer: Seq<u8>,
    u: Seq<u8>,
    e: Seq<u8>,
    g: Seq<u8>,
    p: Seq<u8>,
)
    requires
        !m.contains_key(addr),
    ensures
        spec_update(m, addr, signer, u, e, g, p) == (
            Err::<(), ProfileError>(ProfileError::RecordNotFound),
            m,
        ),
{
}

/// Whether two 32-byte keys hold the same bytes.
fn bytes32_equal(a: &[u8; 32], b: &[u8; 32]) -> (r: bool)
    ensures
        r <==> a@ == b@,
{
    let mut i: usize = 0;
    while i < 32
        invariant
            i <= 32,
            forall|k: int| 0 <= k < i ==> a@[k] == b@[k],
        decreases 32 - i,
    {
        if a[i] != b[i] {
            return false;
        }
        i += 1;
    }
    proof {
        assert(a@ =~= b@);
    }
    true
}

impl View for ProfileStore {
    type V = Map<Seq<u8>, ProfileView>;

    closed spec fn view(&self) -> Map<Seq<u8>, ProfileView> {
        store_map_of(self.records@)
    }
}

impl ProfileStore {
    /// The store's internal invariant: no address is occupied twice.
    pub closed spec fn wf(self) -> bool {
        distinct_addresses(self.records@)
    }

    /// An empty store: no address holds a record.
    pub fn new() -> (r: ProfileStore)
        ensures
            r.wf(),
            r@ == Map::<Seq<u8>, ProfileView>::empty(),
    {
        ProfileStore { records: Vec::new() }
    }

    /// The position of the record at an address, if any.
    fn find_index(&self, address: &[u8; 32]) -> (r: Option<usize>)
        ensures
            r is Some ==> r.unwrap() < self.records@.len()
                && self.records@[r.unwrap() as int].address@ == address@,
            r is None ==> forall|i: int|
                0 <= i < self.records@.len() ==> self.records@[i].address@ != address@,
    {
        let n = self.records.len();
        let mut i: usize = 0;
        while i < n
            invariant
                n == self.records@.len(),
                i <= n,
                forall|k: int| 0 <= k < i ==> self.records@[k].address@ != address@,
            decreases n - i,
        {
            if bytes32_equal(&self.records[i].address, address) {
                return Some(i);
            }
            i += 1;
        }
        None
    }

    /// Read the record at a storage address: the entry of the store's map at
    /// that address, or `None` where the map has none.
    pub fn read_at(&self, address: &[u8; 32]) -> (r: Option<UserProfile>)
        requires
            self.wf(),
        ensures
            r is Some <==> self@.contains_key(address@),
            r is Some ==> r.unwrap()@ == self@[address@],
    {
        proof {
            lemma_store_map_contains(self.records@, address@);
        }
        match self.find_index(address) {
            Some(i) => {
                proof {
                    lemma_store_map_at(self.records@, i as int);
                }
                Some(self.records[i].profile)
            },
            None => None,
        }
    }

    /// Read the profile stored for an authority key: the record at that key's
    /// derived address, or `None` where derivation fails or no record exists.
    pub fn read_profile(&self, authority: &[u8; 32]) -> (r: Option<UserProfile>)
        requires
            self.wf(),
        ensures
            ({
                let slot = derived_profile_slot(authority@);
                match slot {
                    Some((addr, _)) => {
                        &&& r is Some <==> self@.contains_key(addr)
                        &&& r is Some ==> r.unwrap()@ == self@[addr]
                    },
                    None => r is None,
                }
            }),
    {
        match derive_profile_address(authority) {
            Some((addr, _bump)) => self.read_at(&addr),
            None => None,
        }
    }

    /// Create the profile record for a requesting authority key: derive the
    /// key's storage address and install a record there whose authority is
    /// that key, failing with `AlreadyInitialized` (and writing nothing) when
    /// the address is already occupied, or with `DerivationFailed` when no
    /// address can be derived. The host verifies the requester's signature
    /// before this transition runs.
    pub fn initialize_user(
        &mut self,
        user: &[u8; 32],
        username: [u8; 16],
        emoji: [u8; 4],
        gender: [u8; 8],
        pin: [u8; 4],
    ) -> (r: Result<(), ProfileError>)
        requires
            old(self).wf(),
        ensures
            final(self).wf(),
            ({
                let slot = derived_profile_slot(user@);
                match slot {
                    Some((addr, _)) => {
                        let (sr, sm) = spec_initialize(
                            old(self)@,
                            addr,
                            user@,
                            username@,
                            emoji@,
                            gender@,
                            pin@,
                        );
                        r == sr && final(self)@ == sm
                    },
                    None => r == Err::<(), ProfileError>(ProfileError::DerivationFailed)
                        && final(self)@ == old(self)@,
                }
            }),
    {
        let addr = match derive_profile_address(user) {
            Some((addr, _bump)) => addr,
            None => {
                return Err(ProfileError::DerivationFailed);
            },
        };
        proof {
            lemma_store_map_contains(self.records@, addr@);
        }
        match self.find_index(&addr) {
            Some(_) => Err(ProfileError::AlreadyInitialized),
            None => {
                let record = StoredRecord {
                    address: addr,
                    profile: UserProfile::new(*user, username, emoji, gender, pin),
                };
                proof {
                    lemma_store_map_push(self.records@, record);
                }
                self.records.push(record);
                Ok(())
            },
        }
    }

    /// Update the four data fields of the record stored for an authority key,
    /// leaving the authority itself untouched. The record is looked up at the
    /// key's derived address; the transition fails with `RecordNotFound` when
    /// no record exists there, and with `AuthorityMismatch` (before anything
    /// is written) when the signing key differs from the stored authority.
    /// The host verifies the signer's signature before this transition runs.
    pub fn update_user(
        &mut self,
        user: &[u8; 32],
        signer: &[u8; 32],
        username: [u8; 16],
        emoji: [u8; 4],
        gender: [u8; 8],
        pin: [u8; 4],
    ) -> (r: Result<(), ProfileError>)
        requires
            old(self).wf(),
        ensures
            final(self).wf(),
            ({
                let slot = derived_profile_slot(user@);
                match slot {
                    Some((addr, _)) => {
                        let (sr, sm) = spec_update(
                            old(self)@,
                            addr,
                            signer@,
                            username@,
                            emoji@,
                            gender@,
                            pin@,
                        );
                        r == sr && final(self)@ == sm
                    },
                    None => r == Err::<(), ProfileError>(ProfileError::DerivationFailed)
                        && final(self)@ == old(self)@,
                }
            }),
    {
        let addr = match derive_profile_address(user) {
            Some((addr, _bump)) => addr,
            None => {
                return Err(ProfileError::DerivationFailed);
            },
        };
        proof {
            lemma_store_map_contains(self.records@, addr@);
        }
        match self.find_index(&addr) {
            None => Err(ProfileError::RecordNotFound),
            Some(i) => {
                proof {
                    lemma_store_map_at(self.records@, i as int);
                }
                let stored_authority = self.records[i].profile.authority;
                if !bytes32_equal(&stored_authority, signer) {
                    return Err(ProfileError::AuthorityMismatch);
                }
                let record = StoredRecord {
                    address: addr,
                    profile: UserProfile::new(stored_authority, username, emoji, gender, pin),
                };
                proof {
                    lemma_store_map_update(self.records@, i as int, record);
                }
                self.records.set(i, record);
                Ok(())
            },
        }
    }
}

} // verus!
