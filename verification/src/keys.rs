//! Keys, key identifiers and the set of trusted keys.
use crate::bytes::bytes_eq;
use crate::sodium::{sha256, sha256_digest};
use vstd::prelude::*;

verus! {

/// Number of bytes in a public key, a key identifier and each session key.
pub const PUBLIC_KEY_BYTES: usize = 32;

/// A public key, long-term or ephemeral.
#[derive(Clone, Copy, Debug, PartialEq, Eq)]
pub struct PublicKey {
    pub bytes: [u8; 32],
}

/// The SHA-256 digest of a public key, by which the key is looked up.
#[derive(Clone, Copy, Debug, PartialEq, Eq)]
pub struct PublicKeyId {
    pub digest: [u8; 32],
}

/// The two keys that protect one direction of a session.
#[derive(Clone, Copy, Debug, PartialEq, Eq)]
pub struct SymmetricKeys {
    pub encryption_key: [u8; 32],
    pub authentication_key: [u8; 32],
}

/// The keys of a session: one pair for each direction.
#[derive(Clone, Copy, Debug, PartialEq, Eq)]
pub struct SessionKeys {
    /// For what the device sends and the server receives.
    pub from_device: SymmetricKeys,
    /// For what the server sends and the device receives.
    pub from_server: SymmetricKeys,
}

/// The two ends of a session.
#[derive(Clone, Copy, Debug, PartialEq, Eq, Structural)]
pub enum Role {
    /// The end that opens the handshake.
    Device,
    /// The end that answers it.
    Server,
}

impl SessionKeys {
    /// The keys under which `role` sends.
    pub open spec fn spec_sending(self, role: Role) -> SymmetricKeys {
        match role {
            Role::Device => self.from_device,
            Role::Server => self.from_server,
        }
    }

    /// The keys under which `role` receives: those under which the other
    /// end sends.
    pub open spec fn spec_receiving(self, role: Role) -> SymmetricKeys {
        match role {
            Role::Device => self.from_server,
            Role::Server => self.from_device,
        }
    }

    /// The keys under which `role` sends.
    pub fn sending(&self, role: Role) -> (keys: SymmetricKeys)
        ensures
            keys == self.spec_sending(role),
    {
        match role {
            Role::Device => self.from_device,
            Role::Server => self.from_server,
        }
    }

    /// The keys under which `role` receives.
    pub fn receiving(&self, role: Role) -> (keys: SymmetricKeys)
        ensures
            keys == self.spec_receiving(role),
    {
        match role {
            Role::Device => self.from_server,
            Role::Server => self.from_device,
        }
    }
}

/// The identifier of a public key: its SHA-256 digest.
pub open spec fn spec_id_of_pk(pk: PublicKey) -> PublicKeyId {
    PublicKeyId { digest: sha256_digest(pk.bytes@) }
}

/// Computes the identifier of a public key.
pub fn id_of_pk(pk: &PublicKey) -> (id: PublicKeyId)
    ensures
        id == spec_id_of_pk(*pk),
{
    PublicKeyId { digest: sha256(pk.bytes.as_slice()) }
}

/// Tells whether `digest` is the identifier `id`.
pub fn digest_is_id(digest: &[u8; 32], id: &PublicKeyId) -> (same: bool)
    ensures
        same == (*digest == id.digest),
{
    let same = bytes_eq(digest.as_slice(), id.digest.as_slice());
    assert(same == (*digest =~= id.digest));
    same
}

/// The public keys that an endpoint accepts, each under its identifier.
pub struct TrustedKeys {
    entries: Vec<(PublicKeyId, PublicKey)>,
}

impl View for TrustedKeys {
    type V = Map<PublicKeyId, PublicKey>;

    closed spec fn view(&self) -> Map<PublicKeyId, PublicKey> {
        Map::new(
            |id: PublicKeyId| self.position(id) < self.entries@.len(),
            |id: PublicKeyId| self.entries@[self.position(id)].1,
        )
    }
}

impl TrustedKeys {
    /// The first index at which `id` is filed, or the number of entries where
    /// it is not filed.
    spec fn position(&self, id: PublicKeyId) -> int {
        Self::first(self.entries@, id)
    }

    spec fn first(entries: Seq<(PublicKeyId, PublicKey)>, id: PublicKeyId) -> int
        decreases entries.len(),
    {
        if entries.len() == 0 {
            0
        } else if entries[0].0 == id {
            0
        } else {
            1 + Self::first(entries.drop_first(), id)
        }
    }

    /// No identifier is filed twice.
    pub closed spec fn wf(&self) -> bool {
        forall|i: int, j: int|
            0 <= i < j < self.entries@.len() ==> self.entries@[i].0 != self.entries@[j].0
    }

    proof fn lemma_first(entries: Seq<(PublicKeyId, PublicKey)>, id: PublicKeyId)
        ensures
            0 <= Self::first(entries, id) <= entries.len(),
            Self::first(entries, id) < entries.len() ==> entries[Self::first(entries, id)].0 == id,
            forall|i: int| 0 <= i < Self::first(entries, id) ==> entries[i].0 != id,
        decreases entries.len(),
    {
        if entries.len() > 0 && entries[0].0 != id {
            let rest = entries.drop_first();
            Self::lemma_first(rest, id);
            assert forall|i: int| 0 <= i < Self::first(entries, id) implies entries[i].0 != id by {
                if i > 0 {
                    assert(entries[i] == rest[i - 1]);
                }
            }
        }
    }

    proof fn lemma_first_is(entries: Seq<(PublicKeyId, PublicKey)>, id: PublicKeyId, k: int)
        requires
            0 <= k <= entries.len(),
            forall|i: int| 0 <= i < k ==> entries[i].0 != id,
            k < entries.len() ==> entries[k].0 == id,
        ensures
            Self::first(entries, id) == k,
    {
        Self::lemma_first(entries, id);
    }

    /// A set with no key in it.
    pub fn new() -> (trusted: TrustedKeys)
        ensures
            trusted.wf(),
            trusted@ == Map::<PublicKeyId, PublicKey>::empty(),
    {
        let trusted = TrustedKeys { entries: Vec::new() };
        assert(trusted@ =~= Map::<PublicKeyId, PublicKey>::empty());
        trusted
    }

    /// The index at which `id` is filed, or the number of entries.
    fn locate(&self, id: &PublicKeyId) -> (at: usize)
        ensures
            at == self.position(*id),
            at <= self.entries@.len(),
            at < self.entries@.len() ==> self.entries@[at as int].0 == *id,
            forall|i: int| 0 <= i < at ==> self.entries@[i].0 != *id,
    {
        let mut i: usize = 0;
        while i < self.entries.len()
            invariant
                i <= self.entries@.len(),
                forall|j: int| 0 <= j < i ==> self.entries@[j].0 != *id,
            decreases self.entries@.len() - i,
        {
            let same = bytes_eq(self.entries[i].0.digest.as_slice(), id.digest.as_slice());
            assert(same == (self.entries@[i as int].0.digest =~= id.digest));
            if same {
                proof {
                    Self::lemma_first_is(self.entries@, *id, i as int);
                }
                return i;
            }
            i += 1;
        }
        proof {
            Self::lemma_first_is(self.entries@, *id, i as int);
        }
        i
    }

    /// The key filed under `id`, if there is one.
    pub fn get(&self, id: &PublicKeyId) -> (found: Option<PublicKey>)
        ensures
            found == (if self@.contains_key(*id) {
                Some(self@[*id])
            } else {
                None
            }),
    {
        let at = self.locate(id);
        if at < self.entries.len() {
            Some(self.entries[at].1)
        } else {
            None
        }
    }

    /// Files `pk` under `id`, in place of the key that was filed there.
    pub fn insert(&mut self, id: PublicKeyId, pk: PublicKey)
        requires
            old(self).wf(),
        ensures
            final(self).wf(),
            final(self)@ == old(self)@.insert(id, pk),
    {
        let at = self.locate(&id);
        let ghost before = self.entries@;
        if at < self.entries.len() {
            self.entries[at] = (id, pk);
        } else {
            self.entries.push((id, pk));
        }
        proof {
            let after = self.entries@;
            assert(after[at as int] == (id, pk));
            assert forall|other: PublicKeyId|
                Self::first(after, other) < after.len() <==> (other == id || Self::first(
                    before,
                    other,
                ) < before.len()) by {
                Self::lemma_first(after, other);
                Self::lemma_first(before, other);
                let k = Self::first(before, other);
                let l = Self::first(after, other);
                if other != id && k < before.len() {
                    assert(after[k] == before[k]);
                }
                if other != id && l < after.len() {
                    assert(after[l] == before[l]);
                }
            }
            assert forall|other: PublicKeyId| Self::first(after, other) < after.len() implies after[Self::first(
                after,
                other,
            )].1 == (if other == id {
                pk
            } else {
                before[Self::first(before, other)].1
            }) by {
                Self::lemma_first(after, other);
                Self::lemma_first(before, other);
                let k = Self::first(before, other);
                let l = Self::first(after, other);
                if other != id {
                    assert(after[l] == before[l]);
                    Self::lemma_first_is(before, other, l);
                } else {
                    Self::lemma_first_is(after, other, at as int);
                }
            }
            assert(self@ =~= old(self)@.insert(id, pk));
        }
    }

    /// The number of keys in the set.
    pub fn len(&self) -> (n: usize)
        requires
            self.wf(),
        ensures
            n == self@.dom().len(),
            self@.dom().finite(),
    {
        proof {
            Self::lemma_len(self.entries@);
        }
        assert(self@.dom() =~= Self::ids(self.entries@));
        self.entries.len()
    }

    spec fn ids(entries: Seq<(PublicKeyId, PublicKey)>) -> Set<PublicKeyId> {
        Set::new(|id: PublicKeyId| Self::first(entries, id) < entries.len())
    }

    proof fn lemma_len(entries: Seq<(PublicKeyId, PublicKey)>)
        requires
            forall|i: int, j: int| 0 <= i < j < entries.len() ==> entries[i].0 != entries[j].0,
        ensures
            Self::ids(entries).finite(),
            Self::ids(entries).len() == entries.len(),
        decreases entries.len(),
    {
        if entries.len() == 0 {
            assert(Self::ids(entries) =~= Set::<PublicKeyId>::empty());
        } else {
            let rest = entries.drop_last();
            let last = entries.last().0;
            Self::lemma_len(rest);
            assert forall|id: PublicKeyId|
                Self::ids(entries).contains(id) <==> Self::ids(rest).insert(last).contains(id) by {
                Self::lemma_first(entries, id);
                Self::lemma_first(rest, id);
                if Self::first(rest, id) < rest.len() {
                    Self::lemma_first_is(entries, id, Self::first(rest, id));
                }
                if Self::first(entries, id) < rest.len() {
                    Self::lemma_first_is(rest, id, Self::first(entries, id));
                }
            }
            assert(Self::ids(entries) =~= Self::ids(rest).insert(last));
            assert(!Self::ids(rest).contains(last)) by {
                Self::lemma_first(rest, last);
            }
        }
    }
}

/// Looks up the long-term key that a peer named by its identifier.
///
/// A key is returned only if it is filed under `id` and `id` is its digest, so
/// that a set that files a key under another key's identifier is not believed.
pub fn find_public_key(id: &PublicKeyId, trusted: &TrustedKeys) -> (found: Option<PublicKey>)
    ensures
        found == spec_find_public_key(*id, trusted@),
{
    match trusted.get(id) {
        None => None,
        Some(pk) => {
            let digest = sha256(pk.bytes.as_slice());
            if digest_is_id(&digest, id) {
                Some(pk)
            } else {
                None
            }
        },
    }
}

/// The key that `trusted` holds for `id`, where `id` is that key's digest.
pub open spec fn spec_find_public_key(
    id: PublicKeyId,
    trusted: Map<PublicKeyId, PublicKey>,
) -> Option<PublicKey> {
    if trusted.contains_key(id) && spec_id_of_pk(trusted[id]) == id {
        Some(trusted[id])
    } else {
        None
    }
}

} // verus!
