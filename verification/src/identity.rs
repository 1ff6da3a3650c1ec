//! The identity registry: unified identities keyed by a deterministically
//! derived id, each carrying a verification status and per-platform flags.

use crate::assoc::{assoc_map, distinct_keys, lemma_assoc_map_contains, lemma_assoc_map_index,
    lemma_assoc_map_update};
use crate::decimal::{decimal_digits, push_decimal};
use crate::flags::PlatformFlags;
use vstd::prelude::*;
use vstd::string::StringExecFns;

verus! {

/// The category of an urbit-style address.
#[derive(Clone, Copy, Debug, PartialEq, Eq, Structural)]
pub enum IdentityType {
    Galaxy,
    Star,
    Planet,
    Moon,
}

/// How far an identity's verification has progressed.
#[derive(Clone, Copy, Debug, PartialEq, Eq, Structural)]
pub enum VerificationStatus {
    Pending,
    Verified,
    Failed,
    Revoked,
}

/// The external address half of a unified identity.
#[derive(Clone, Copy, Debug, PartialEq, Eq, Structural)]
pub struct UrbitIdentity {
    pub address: u64,
    pub identity_type: IdentityType,
    pub verified: bool,
    pub created_at: u64,
    pub updated_at: u64,
}

/// The arguments of an identity creation.
#[derive(Clone, Copy, Debug)]
pub struct CreateIdentityArgs {
    pub urbit_address: u64,
    pub identity_type: IdentityType,
}

/// A social-platform connection record.
#[derive(Debug)]
pub struct SocialConnection {
    pub platform: String,
    pub connected: bool,
    pub access_token: Option<String>,
    pub connected_at: u64,
}

/// A unified identity record.
#[derive(Debug)]
pub struct GrainspaceIdentity {
    pub unified_id: String,
    pub urbit_identity: UrbitIdentity,
    pub icp_principal: String,
    pub verification_status: VerificationStatus,
    pub social_connections: PlatformFlags,
    pub platform_access: PlatformFlags,
    pub created_at: u64,
    pub last_sync: u64,
}

/// The mathematical value of a [`GrainspaceIdentity`].
#[verifier::ext_equal]
pub ghost struct IdentityModel {
    pub unified_id: Seq<char>,
    pub urbit_identity: UrbitIdentity,
    pub icp_principal: Seq<char>,
    pub verification_status: VerificationStatus,
    pub social_connections: Map<Seq<char>, bool>,
    pub platform_access: Map<Seq<char>, bool>,
    pub created_at: u64,
    pub last_sync: u64,
}

impl View for GrainspaceIdentity {
    type V = IdentityModel;

    open spec fn view(&self) -> IdentityModel {
        IdentityModel {
            unified_id: self.unified_id@,
            urbit_identity: self.urbit_identity,
            icp_principal: self.icp_principal@,
            verification_status: self.verification_status,
            social_connections: self.social_connections.as_map(),
            platform_access: self.platform_access.as_map(),
            created_at: self.created_at,
            last_sync: self.last_sync,
        }
    }
}

impl GrainspaceIdentity {
    /// Both flag sets keep their platform names distinct.
    pub open spec fn wf(&self) -> bool {
        self.social_connections.wf() && self.platform_access.wf()
    }
}

impl Clone for GrainspaceIdentity {
    fn clone(&self) -> (r: Self)
        ensures
            r@ == self@,
            r.social_connections@ == self.social_connections@,
            r.platform_access@ == self.platform_access@,
    {
        GrainspaceIdentity {
            unified_id: self.unified_id.clone(),
            urbit_identity: self.urbit_identity,
            icp_principal: self.icp_principal.clone(),
            verification_status: self.verification_status,
            social_connections: self.social_connections.clone(),
            platform_access: self.platform_access.clone(),
            created_at: self.created_at,
            last_sync: self.last_sync,
        }
    }
}

/// The unified id derived from an external address and a platform principal.
pub open spec fn unified_id_spec(urbit_address: u64, icp_principal: Seq<char>) -> Seq<char> {
    "~grainspace-"@ + decimal_digits(urbit_address as int) + "-"@ + icp_principal
}

/// Derives the unified id used as the sole identity lookup key: a pure
/// function of the external address and the principal, so equal inputs always
/// give equal ids.
pub fn generate_unified_id(urbit_address: u64, icp_principal: &str) -> (r: String)
    ensures
        r@ == unified_id_spec(urbit_address, icp_principal@),
{
    let mut s = String::from_str("~grainspace-");
    push_decimal(&mut s, urbit_address);
    s.append("-");
    s.append(icp_principal);
    proof {
        assert(s@ =~= unified_id_spec(urbit_address, icp_principal@));
    }
    s
}

/// The models of a list of identity records, in order.
pub open spec fn id_models(s: Seq<GrainspaceIdentity>) -> Seq<IdentityModel> {
    s.map_values(|g: GrainspaceIdentity| g@)
}

/// The key/value pairs of a list of identity records, keyed by unified id.
pub open spec fn id_pairs(s: Seq<GrainspaceIdentity>) -> Seq<(Seq<char>, IdentityModel)> {
    s.map_values(|g: GrainspaceIdentity| (g.unified_id@, g@))
}

proof fn lemma_id_pairs_update(s: Seq<GrainspaceIdentity>, i: int, g: GrainspaceIdentity)
    requires
        0 <= i < s.len(),
    ensures
        id_pairs(s.update(i, g)) =~= id_pairs(s).update(i, (g.unified_id@, g@)),
        id_models(s.update(i, g)) =~= id_models(s).update(i, g@),
{
    let t = s.update(i, g);
    assert(t.len() == s.len());
    assert(forall|k: int| 0 <= k < s.len() && k != i ==> t[k] == s[k]);
    assert(t[i] == g);
}

proof fn lemma_id_pairs_push(s: Seq<GrainspaceIdentity>, g: GrainspaceIdentity)
    ensures
        id_pairs(s.push(g)) =~= id_pairs(s).push((g.unified_id@, g@)),
        id_models(s.push(g)) =~= id_models(s).push(g@),
{
    assert(forall|k: int| 0 <= k < s.len() ==> s.push(g)[k] == s[k]);
    assert(s.push(g)[s.len() as int] == g);
}

/// The first record in `s` whose external address equals `a`, if any.
pub open spec fn find_by_address(s: Seq<IdentityModel>, a: u64) -> Option<IdentityModel>
    decreases s.len(),
{
    if s.len() == 0 {
        None
    } else if s[0].urbit_identity.address == a {
        Some(s[0])
    } else {
        find_by_address(s.drop_first(), a)
    }
}

/// The model of a freshly created identity record.
pub open spec fn new_identity_model(
    args: CreateIdentityArgs,
    icp_principal: Seq<char>,
    now: u64,
) -> IdentityModel {
    IdentityModel {
        unified_id: unified_id_spec(args.urbit_address, icp_principal),
        urbit_identity: UrbitIdentity {
            address: args.urbit_address,
            identity_type: args.identity_type,
            verified: true,
            created_at: now,
            updated_at: now,
        },
        icp_principal: icp_principal,
        verification_status: VerificationStatus::Verified,
        social_connections: Map::empty(),
        platform_access: Map::empty(),
        created_at: now,
        last_sync: now,
    }
}

/// `m` with the named social connection set to `value` and a fresh sync time.
pub open spec fn with_social_connection(
    m: IdentityModel,
    platform: Seq<char>,
    value: bool,
    now: u64,
) -> IdentityModel {
    IdentityModel { social_connections: m.social_connections.insert(platform, value), last_sync: now, ..m }
}

/// `m` with the named platform access granted and a fresh sync time.
pub open spec fn with_platform_access(
    m: IdentityModel,
    platform: Seq<char>,
    value: bool,
    now: u64,
) -> IdentityModel {
    IdentityModel { platform_access: m.platform_access.insert(platform, value), last_sync: now, ..m }
}

/// `m` marked verified with a fresh sync time.
pub open spec fn synced_model(m: IdentityModel, now: u64) -> IdentityModel {
    IdentityModel { verification_status: VerificationStatus::Verified, last_sync: now, ..m }
}

/// Whether a record's status is verified.
pub open spec fn is_verified_model(m: IdentityModel) -> bool {
    m.verification_status == VerificationStatus::Verified
}

/// Whether a record has at least one social-connection entry, whatever its
/// value.
pub open spec fn has_social_entry(m: IdentityModel) -> bool {
    m.social_connections != Map::<Seq<char>, bool>::empty()
}

/// The records of `s` whose status is verified.
pub open spec fn verified_models(s: Seq<IdentityModel>) -> Seq<IdentityModel> {
    s.filter(|m: IdentityModel| is_verified_model(m))
}

/// The records of `s` with at least one social-connection entry.
pub open spec fn socially_connected_models(s: Seq<IdentityModel>) -> Seq<IdentityModel> {
    s.filter(|m: IdentityModel| has_social_entry(m))
}

/// The identity-count summary returned by [`IdentityRegistry::get_identity_stats`].
#[derive(Clone, Copy, Debug, PartialEq, Eq, Structural)]
pub struct IdentityStats {
    pub total_identities: u64,
    pub verified_identities: u64,
    pub social_connected: u64,
}

/// The identity registry's state: the records keyed by unified id, and a
/// counter incremented on each creation (it is not part of the key).
pub struct IdentityRegistry {
    identities: Vec<GrainspaceIdentity>,
    next_id: u64,
}

impl IdentityRegistry {
    /// The stored records' models, in insertion order.
    pub closed spec fn models(&self) -> Seq<IdentityModel> {
        id_models(self.identities@)
    }

    /// The stored records as unified-id/model pairs, in insertion order.
    pub closed spec fn pairs(&self) -> Seq<(Seq<char>, IdentityModel)> {
        id_pairs(self.identities@)
    }

    /// The registry read as a map from unified id to record model.
    pub open spec fn id_map(&self) -> Map<Seq<char>, IdentityModel> {
        assoc_map(self.pairs())
    }

    /// The creation counter.
    pub closed spec fn next_counter(&self) -> u64 {
        self.next_id
    }

    pub closed spec fn records_wf(&self) -> bool {
        forall|i: int|
            0 <= i < self.identities@.len() ==> (#[trigger] self.identities@[i]).wf()
    }

    /// The registry's invariant: unified ids are distinct, and every record's
    /// flag sets are well formed.
    pub open spec fn wf(&self) -> bool {
        distinct_keys(self.pairs()) && self.records_wf()
    }

    /// A fresh, empty registry.
    pub fn new() -> (r: Self)
        ensures
            r.wf(),
            r.next_counter() == 0,
            r.models() == Seq::<IdentityModel>::empty(),
            r.id_map() == Map::<Seq<char>, IdentityModel>::empty(),
    {
        let r = IdentityRegistry { identities: Vec::new(), next_id: 0 };
        proof {
            assert(r.models() =~= Seq::<IdentityModel>::empty());
            assert(r.pairs() =~= Seq::<(Seq<char>, IdentityModel)>::empty());
            assert(r.id_map() =~= Map::<Seq<char>, IdentityModel>::empty());
        }
        r
    }

    /// The index of the record with the given unified id, if present.
    fn find_index(&self, unified_id: &String) -> (r: Option<usize>)
        requires
            self.wf(),
        ensures
            match r {
                Some(i) => i < self.pairs().len() && self.pairs()[i as int].0 == unified_id@,
                None => !self.id_map().contains_key(unified_id@),
            },
    {
        let mut i: usize = 0;
        while i < self.identities.len()
            invariant
                self.wf(),
                i <= self.identities@.len(),
                forall|j: int| 0 <= j < i ==> self.pairs()[j].0 != unified_id@,
            decreases self.identities@.len() - i,
        {
            proof {
                assert(self.pairs()[i as int] == (self.identities@[i as int].unified_id@,
                self.identities@[i as int]@));
            }
            if self.identities[i].unified_id == *unified_id {
                return Some(i);
            }
            i += 1;
        }
        proof {
            lemma_assoc_map_contains(self.pairs(), unified_id@);
        }
        None
    }

    /// Derives the unified id from the address and the given principal,
    /// builds a verified record stamped with `now`, and stores it under that
    /// id — overwriting any record already there (last write wins). Returns
    /// the unified id.
    pub fn create_identity(&mut self, args: CreateIdentityArgs, icp_principal: String, now: u64) -> (r:
        Result<String, String>)
        requires
            old(self).wf(),
            old(self).next_counter() < u64::MAX,
        ensures
            final(self).wf(),
            final(self).next_counter() == old(self).next_counter() + 1,
            r matches Ok(uid) && uid@ == unified_id_spec(args.urbit_address, icp_principal@),
            final(self).id_map() == old(self).id_map().insert(
                unified_id_spec(args.urbit_address, icp_principal@),
                new_identity_model(args, icp_principal@, now),
            ),
            !old(self).id_map().contains_key(unified_id_spec(args.urbit_address, icp_principal@))
                ==> final(self).models() == old(self).models().push(
                new_identity_model(args, icp_principal@, now),
            ),
            old(self).id_map().contains_key(unified_id_spec(args.urbit_address, icp_principal@))
                ==> final(self).models().len() == old(self).models().len(),
    {
        let ghost principal_chars = icp_principal@;
        self.next_id = self.next_id + 1;
        let unified_id = generate_unified_id(args.urbit_address, icp_principal.as_str());
        let record = GrainspaceIdentity {
            unified_id: unified_id.clone(),
            urbit_identity: UrbitIdentity {
                address: args.urbit_address,
                identity_type: args.identity_type,
                verified: true,
                created_at: now,
                updated_at: now,
            },
            icp_principal,
            verification_status: VerificationStatus::Verified,
            social_connections: PlatformFlags::new(),
            platform_access: PlatformFlags::new(),
            created_at: now,
            last_sync: now,
        };
        proof {
            assert(record@ =~= new_identity_model(args, principal_chars, now));
        }
        let ghost pre = self.identities@;
        match self.find_index(&unified_id) {
            Some(i) => {
                proof {
                    assert(self.pairs().len() == self.identities@.len());
                    lemma_assoc_map_contains(id_pairs(pre), unified_id@);
                }
                self.identities[i] = record;
                proof {
                    lemma_id_pairs_update(pre, i as int, self.identities@[i as int]);
                    lemma_assoc_map_update(id_pairs(pre), i as int, self.identities@[i as int]@);
                    assert(self.id_map() =~= old(self).id_map().insert(
                        unified_id_spec(args.urbit_address, principal_chars),
                        new_identity_model(args, principal_chars, now),
                    ));
                    assert(forall|k: int|
                        0 <= k < self.identities@.len() && k != i ==> self.identities@[k]
                            == pre[k]);
                }
            },
            None => {
                self.identities.push(record);
                proof {
                    lemma_id_pairs_push(pre, self.identities@[pre.len() as int]);
                    assert(self.pairs().drop_last() =~= id_pairs(pre));
                    lemma_assoc_map_contains(id_pairs(pre), unified_id@);
                    assert(forall|p: int, q: int|
                        0 <= p < q < self.pairs().len() ==> self.pairs()[p].0 != self.pairs()[
                            q
                        ].0);
                    assert(forall|k: int|
                        0 <= k < pre.len() ==> self.identities@[k] == pre[k]);
                    assert(self.id_map() =~= old(self).id_map().insert(
                        unified_id_spec(args.urbit_address, principal_chars),
                        new_identity_model(args, principal_chars, now),
                    ));
                    assert(self.models() =~= old(self).models().push(
                        new_identity_model(args, principal_chars, now),
                    ));
                }
            },
        }
        Ok(unified_id)
    }

    /// A copy of the record stored under the given unified id, or a not-found
    /// error if the id is absent.
    pub fn get_identity(&self, unified_id: String) -> (r: Result<GrainspaceIdentity, String>)
        requires
            self.wf(),
        ensures
            self.id_map().contains_key(unified_id@) ==> (r matches Ok(v) && v@ == self.id_map()[
                unified_id@
            ] && v.wf()),
            !self.id_map().contains_key(unified_id@) ==> (r matches Err(e) && e@
                == "Identity not found"@),
    {
        match self.find_index(&unified_id) {
            Some(i) => {
                proof {
                    assert(self.pairs().len() == self.identities@.len());
                    assert(self.pairs()[i as int] == (self.identities@[i as int].unified_id@,
                    self.identities@[i as int]@));
                    lemma_assoc_map_index(self.pairs(), i as int);
                }
                Ok(self.identities[i].clone())
            },
            None => Err(String::from_str("Identity not found")),
        }
    }

    /// Sets the named social-connection flag to true on the record with the
    /// given unified id and refreshes its sync time; absent ids give a
    /// not-found error and leave the registry unchanged.
    pub fn connect_social_platform(&mut self, unified_id: String, platform: String, now: u64) -> (r:
        Result<(), String>)
        requires
            old(self).wf(),
        ensures
            final(self).wf(),
            old(self).id_map().contains_key(unified_id@) ==> {
                &&& r is Ok
                &&& final(self).id_map() == old(self).id_map().insert(
                    unified_id@,
                    with_social_connection(old(self).id_map()[unified_id@], platform@, true, now),
                )
                &&& final(self).next_counter() == old(self).next_counter()
            },
            !old(self).id_map().contains_key(unified_id@) ==> (r matches Err(e) && e@
                == "Identity not found"@ && *final(self) == *old(self)),
    {
        let ghost pre = self.identities@;
        match self.find_index(&unified_id) {
            Some(i) => {
                proof {
                    assert(self.pairs().len() == self.identities@.len());
                    assert(self.pairs()[i as int] == (pre[i as int].unified_id@, pre[i as int]@));
                    lemma_assoc_map_contains(self.pairs(), unified_id@);
                    lemma_assoc_map_index(self.pairs(), i as int);
                }
                let mut rec = self.identities[i].clone();
                rec.social_connections.set(platform, true);
                rec.last_sync = now;
                self.identities[i] = rec;
                proof {
                    assert(self.identities@[i as int]@ =~= with_social_connection(
                        pre[i as int]@,
                        platform@,
                        true,
                        now,
                    ));
                    lemma_id_pairs_update(pre, i as int, self.identities@[i as int]);
                    lemma_assoc_map_update(id_pairs(pre), i as int, self.identities@[i as int]@);
                    assert(self.id_map() =~= old(self).id_map().insert(
                        unified_id@,
                        with_social_connection(old(self).id_map()[unified_id@], platform@, true, now),
                    ));
                    assert(forall|k: int|
                        0 <= k < self.identities@.len() && k != i ==> self.identities@[k]
                            == pre[k]);
                }
                Ok(())
            },
            None => Err(String::from_str("Identity not found")),
        }
    }

    /// Sets the named social-connection flag to false on the record with the
    /// given unified id and refreshes its sync time; absent ids give a
    /// not-found error and leave the registry unchanged.
    pub fn disconnect_social_platform(&mut self, unified_id: String, platform: String, now: u64) -> (r:
        Result<(), String>)
        requires
            old(self).wf(),
        ensures
            final(self).wf(),
            old(self).id_map().contains_key(unified_id@) ==> {
                &&& r is Ok
                &&& final(self).id_map() == old(self).id_map().insert(
                    unified_id@,
                    with_social_connection(old(self).id_map()[unified_id@], platform@, false, now),
                )
                &&& final(self).next_counter() == old(self).next_counter()
            },
            !old(self).id_map().contains_key(unified_id@) ==> (r matches Err(e) && e@
                == "Identity not found"@ && *final(self) == *old(self)),
    {
        let ghost pre = self.identities@;
        match self.find_index(&unified_id) {
            Some(i) => {
                proof {
                    assert(self.pairs().len() == self.identities@.len());
                    assert(self.pairs()[i as int] == (pre[i as int].unified_id@, pre[i as int]@));
                    lemma_assoc_map_contains(self.pairs(), unified_id@);
                    lemma_assoc_map_index(self.pairs(), i as int);
                }
                let mut rec = self.identities[i].clone();
                rec.social_connections.set(platform, false);
                rec.last_sync = now;
                self.identities[i] = rec;
                proof {
                    assert(self.identities@[i as int]@ =~= with_social_connection(
                        pre[i as int]@,
                        platform@,
                        false,
                        now,
                    ));
                    lemma_id_pairs_update(pre, i as int, self.identities@[i as int]);
                    lemma_assoc_map_update(id_pairs(pre), i as int, self.identities@[i as int]@);
                    assert(self.id_map() =~= old(self).id_map().insert(
                        unified_id@,
                        with_social_connection(old(self).id_map()[unified_id@], platform@, false, now),
                    ));
                    assert(forall|k: int|
                        0 <= k < self.identities@.len() && k != i ==> self.identities@[k]
                            == pre[k]);
                }
                Ok(())
            },
            None => Err(String::from_str("Identity not found")),
        }
    }

    /// Sets the named platform-access flag to true on the record with the
    /// given unified id and refreshes its sync time; absent ids give a
    /// not-found error and leave the registry unchanged.
    pub fn grant_platform_access(&mut self, unified_id: String, platform: String, now: u64) -> (r:
        Result<(), String>)
        requires
            old(self).wf(),
        ensures
            final(self).wf(),
            old(self).id_map().contains_key(unified_id@) ==> {
                &&& r is Ok
                &&& final(self).id_map() == old(self).id_map().insert(
                    unified_id@,
                    with_platform_access(old(self).id_map()[unified_id@], platform@, true, now),
                )
                &&& final(self).next_counter() == old(self).next_counter()
            },
            !old(self).id_map().contains_key(unified_id@) ==> (r matches Err(e) && e@
                == "Identity not found"@ && *final(self) == *old(self)),
    {
        let ghost pre = self.identities@;
        match self.find_index(&unified_id) {
            Some(i) => {
                proof {
                    assert(self.pairs().len() == self.identities@.len());
                    assert(self.pairs()[i as int] == (pre[i as int].unified_id@, pre[i as int]@));
                    lemma_assoc_map_contains(self.pairs(), unified_id@);
                    lemma_assoc_map_index(self.pairs(), i as int);
                }
                let mut rec = self.identities[i].clone();
                rec.platform_access.set(platform, true);
                rec.last_sync = now;
                self.identities[i] = rec;
                proof {
                    assert(self.identities@[i as int]@ =~= with_platform_access(
                        pre[i as int]@,
                        platform@,
                        true,
                        now,
                    ));
                    lemma_id_pairs_update(pre, i as int, self.identities@[i as int]);
                    lemma_assoc_map_update(id_pairs(pre), i as int, self.identities@[i as int]@);
                    assert(self.id_map() =~= old(self).id_map().insert(
                        unified_id@,
                        with_platform_access(old(self).id_map()[unified_id@], platform@, true, now),
                    ));
                    assert(forall|k: int|
                        0 <= k < self.identities@.len() && k != i ==> self.identities@[k]
                            == pre[k]);
                }
                Ok(())
            },
            None => Err(String::from_str("Identity not found")),
        }
    }

    /// Marks the record with the given unified id verified and refreshes its
    /// sync time; absent ids give a not-found error and leave the registry
    /// unchanged.
    pub fn sync_identity(&mut self, unified_id: String, now: u64) -> (r: Result<(), String>)
        requires
            old(self).wf(),
        ensures
            final(self).wf(),
            old(self).id_map().contains_key(unified_id@) ==> {
                &&& r is Ok
                &&& final(self).id_map() == old(self).id_map().insert(
                    unified_id@,
                    synced_model(old(self).id_map()[unified_id@], now),
                )
                &&& final(self).next_counter() == old(self).next_counter()
            },
            !old(self).id_map().contains_key(unified_id@) ==> (r matches Err(e) && e@
                == "Identity not found"@ && *final(self) == *old(self)),
    {
        let ghost pre = self.identities@;
        match self.find_index(&unified_id) {
            Some(i) => {
                proof {
                    assert(self.pairs().len() == self.identities@.len());
                    assert(self.pairs()[i as int] == (pre[i as int].unified_id@, pre[i as int]@));
                    lemma_assoc_map_contains(self.pairs(), unified_id@);
                    lemma_assoc_map_index(self.pairs(), i as int);
                }
                let mut rec = self.identities[i].clone();
                rec.verification_status = VerificationStatus::Verified;
                rec.last_sync = now;
                self.identities[i] = rec;
                proof {
                    assert(self.identities@[i as int]@ =~= synced_model(pre[i as int]@, now));
                    lemma_id_pairs_update(pre, i as int, self.identities@[i as int]);
                    lemma_assoc_map_update(id_pairs(pre), i as int, self.identities@[i as int]@);
                    assert(self.id_map() =~= old(self).id_map().insert(
                        unified_id@,
                        synced_model(old(self).id_map()[unified_id@], now),
                    ));
                    assert(forall|k: int|
                        0 <= k < self.identities@.len() && k != i ==> self.identities@[k]
                            == pre[k]);
                }
                Ok(())
            },
            None => Err(String::from_str("Identity not found")),
        }
    }

    /// Whether the record with the given unified id is verified; absent ids
    /// give a not-found error.
    pub fn verify_identity(&self, unified_id: String) -> (r: Result<bool, String>)
        requires
            self.wf(),
        ensures
            self.id_map().contains_key(unified_id@) ==> (r matches Ok(b) && b == is_verified_model(
                self.id_map()[unified_id@],
            )),
            !self.id_map().contains_key(unified_id@) ==> (r matches Err(e) && e@
                == "Identity not found"@),
    {
        match self.find_index(&unified_id) {
            Some(i) => {
                proof {
                    assert(self.pairs().len() == self.identities@.len());
                    assert(self.pairs()[i as int] == (self.identities@[i as int].unified_id@,
                    self.identities@[i as int]@));
                    lemma_assoc_map_index(self.pairs(), i as int);
                }
                Ok(self.identities[i].verification_status == VerificationStatus::Verified)
            },
            None => Err(String::from_str("Identity not found")),
        }
    }

    /// A copy of the first record (in insertion order) whose external
    /// address equals `urbit_address`, or a not-found error if none matches.
    pub fn get_identity_by_urbit_address(&self, urbit_address: u64) -> (r: Result<
        GrainspaceIdentity,
        String,
    >)
        requires
            self.wf(),
        ensures
            find_by_address(self.models(), urbit_address) matches Some(m) ==> (r matches Ok(v)
                && v@ == m && v.wf()),
            find_by_address(self.models(), urbit_address) is None ==> (r matches Err(e) && e@
                == "Identity not found"@),
    {
        let ghost s = self.models();
        proof {
            assert(s.skip(0) =~= s);
        }
        let mut i: usize = 0;
        while i < self.identities.len()
            invariant
                self.wf(),
                s == self.models(),
                i <= self.identities@.len(),
                find_by_address(s, urbit_address) == find_by_address(
                    s.skip(i as int),
                    urbit_address,
                ),
            decreases self.identities@.len() - i,
        {
            proof {
                assert(s[i as int] == self.identities@[i as int]@);
                assert(s.skip(i as int)[0] == s[i as int]);
            }
            if self.identities[i].urbit_identity.address == urbit_address {
                proof {
                    assert(find_by_address(s.skip(i as int), urbit_address) == Some(s[i as int]));
                }
                return Ok(self.identities[i].clone());
            }
            proof {
                assert(s.skip(i as int).drop_first() =~= s.skip(i + 1));
            }
            i += 1;
        }
        proof {
            assert(s.skip(self.identities@.len() as int).len() == 0);
        }
        Err(String::from_str("Identity not found"))
    }

    /// Copies of all unified ids, in insertion order. Every listed id is a
    /// key of the registry's map.
    pub fn list_identities(&self) -> (r: Vec<String>)
        ensures
            r@.len() == self.models().len(),
            forall|i: int| 0 <= i < r@.len() ==> (#[trigger] r@[i])@ == self.models()[i].unified_id,
            forall|i: int| 0 <= i < r@.len() ==> self.id_map().contains_key((#[trigger] r@[i])@),
    {
        let mut r: Vec<String> = Vec::new();
        let mut i: usize = 0;
        while i < self.identities.len()
            invariant
                i <= self.identities@.len(),
                r@.len() == i,
                forall|j: int| 0 <= j < i ==> (#[trigger] r@[j])@ == self.models()[j].unified_id,
            decreases self.identities@.len() - i,
        {
            proof {
                assert(self.models()[i as int] == self.identities@[i as int]@);
            }
            r.push(self.identities[i].unified_id.clone());
            i += 1;
        }
        proof {
            assert(self.models().len() == self.identities@.len());
            assert forall|j: int| 0 <= j < r@.len() implies self.id_map().contains_key(
                (#[trigger] r@[j])@,
            ) by {
                assert(self.pairs()[j] == (self.identities@[j].unified_id@, self.identities@[j]@));
                lemma_assoc_map_contains(self.pairs(), r@[j]@);
            }
        }
        r
    }

    /// Counts the stored records: all of them, the verified ones, and those
    /// with at least one social-connection entry.
    pub fn get_identity_stats(&self) -> (r: IdentityStats)
        requires
            self.wf(),
        ensures
            r.total_identities == self.models().len(),
            r.verified_identities == verified_models(self.models()).len(),
            r.social_connected == socially_connected_models(self.models()).len(),
    {
        let ghost s = self.models();
        let mut verified_count: u64 = 0;
        let mut social_connected: u64 = 0;
        let mut i: usize = 0;
        while i < self.identities.len()
            invariant
                self.wf(),
                s == self.models(),
                i <= self.identities@.len(),
                verified_count == verified_models(s.take(i as int)).len(),
                social_connected == socially_connected_models(s.take(i as int)).len(),
                verified_count <= i,
                social_connected <= i,
            decreases self.identities@.len() - i,
        {
            proof {
                assert(s[i as int] == self.identities@[i as int]@);
                reveal(Seq::filter);
                assert(s.take(i + 1).drop_last() =~= s.take(i as int));
                assert(s.take(i + 1).last() == s[i as int]);
            }
            if self.identities[i].verification_status == VerificationStatus::Verified {
                verified_count = verified_count + 1;
            }
            proof {
                assert(verified_count == verified_models(s.take(i + 1)).len());
            }
            if !self.identities[i].social_connections.is_empty() {
                social_connected = social_connected + 1;
                proof {
                    self.identities@[i as int].social_connections.lemma_empty_iff_map_empty();
                    assert(has_social_entry(s[i as int]));
                }
            } else {
                proof {
                    self.identities@[i as int].social_connections.lemma_empty_iff_map_empty();
                    assert(!has_social_entry(s[i as int]));
                }
            }
            proof {
                assert(social_connected == socially_connected_models(s.take(i + 1)).len());
            }
            i += 1;
        }
        proof {
            assert(s.take(self.identities@.len() as int) =~= s);
            assert(s.len() == self.identities@.len());
        }
        IdentityStats {
            total_identities: self.identities.len() as u64,
            verified_identities: verified_count,
            social_connected,
        }
    }
}

/// Unified-id derivation is deterministic: equal addresses and principals
/// give equal ids.
pub proof fn lemma_unified_id_deterministic(a1: u64, p1: Seq<char>, a2: u64, p2: Seq<char>)
    requires
        a1 == a2,
        p1 == p2,
    ensures
        unified_id_spec(a1, p1) == unified_id_spec(a2, p2),
{
}

/// Creating an identity under an already-used unified id overwrites the older
/// record: the registry keeps only the last write for a key.
pub proof fn lemma_create_identity_overwrites(
    m: Map<Seq<char>, IdentityModel>,
    k: Seq<char>,
    v1: IdentityModel,
    v2: IdentityModel,
)
    ensures
        m.insert(k, v1).insert(k, v2) == m.insert(k, v2),
        m.insert(k, v1).insert(k, v2)[k] == v2,
{
    assert(m.insert(k, v1).insert(k, v2) =~= m.insert(k, v2));
}

} // verus!
