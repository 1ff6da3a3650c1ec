//! The sheaf registry: an ordered list of public-address records tagged with
//! one of 88 logical slots, and an append-only log of numbered sessions.

use vstd::prelude::*;
use vstd::string::StringExecFns;

verus! {

/// How many logical sheaf slots exist.
pub const SHEAF_COUNT: u64 = 88;

/// The slot reserved for the registry's own keeper.
pub const KAE3G_SHEAF_POSITION: u64 = 1;

/// The blockchain a public address belongs to.
#[derive(Clone, Copy, Debug, PartialEq, Eq, Structural)]
pub enum ChainType {
    ICP,
    Hedera,
    Solana,
}

/// A public address pinned to a sheaf slot.
#[derive(Debug)]
pub struct PublicAddress {
    pub chain: ChainType,
    pub address: String,
    pub sheaf_position: u64,
    pub timestamp: u64,
    pub grainpath: String,
}

/// The mathematical value of a [`PublicAddress`].
#[verifier::ext_equal]
pub ghost struct AddressModel {
    pub chain: ChainType,
    pub address: Seq<char>,
    pub sheaf_position: u64,
    pub timestamp: u64,
    pub grainpath: Seq<char>,
}

impl View for PublicAddress {
    type V = AddressModel;

    open spec fn view(&self) -> AddressModel {
        AddressModel {
            chain: self.chain,
            address: self.address@,
            sheaf_position: self.sheaf_position,
            timestamp: self.timestamp,
            grainpath: self.grainpath@,
        }
    }
}

impl Clone for PublicAddress {
    fn clone(&self) -> (r: Self)
        ensures
            r@ == self@,
    {
        PublicAddress {
            chain: self.chain,
            address: self.address.clone(),
            sheaf_position: self.sheaf_position,
            timestamp: self.timestamp,
            grainpath: self.grainpath.clone(),
        }
    }
}

/// The models of a list of addresses, in order.
pub open spec fn addr_models(s: Seq<PublicAddress>) -> Seq<AddressModel> {
    s.map_values(|p: PublicAddress| p@)
}

/// A numbered, immutable bundle of address records.
#[derive(Debug)]
pub struct Session {
    pub session_number: u64,
    pub grainpath: String,
    pub timestamp: u64,
    pub addresses: Vec<PublicAddress>,
}

/// The mathematical value of a [`Session`].
#[verifier::ext_equal]
pub ghost struct SessionModel {
    pub session_number: u64,
    pub grainpath: Seq<char>,
    pub timestamp: u64,
    pub addresses: Seq<AddressModel>,
}

impl View for Session {
    type V = SessionModel;

    open spec fn view(&self) -> SessionModel {
        SessionModel {
            session_number: self.session_number,
            grainpath: self.grainpath@,
            timestamp: self.timestamp,
            addresses: addr_models(self.addresses@),
        }
    }
}

/// The models of a list of sessions, in order.
pub open spec fn session_models(s: Seq<Session>) -> Seq<SessionModel> {
    s.map_values(|x: Session| x@)
}

proof fn lemma_addr_models_push(pre: Seq<PublicAddress>, p: PublicAddress)
    ensures
        addr_models(pre.push(p)) =~= addr_models(pre).push(p@),
{
    assert(addr_models(pre.push(p)).len() == pre.len() + 1);
    assert(forall|k: int| 0 <= k < pre.len() ==> pre.push(p)[k] == pre[k]);
    assert(pre.push(p)[pre.len() as int] == p);
}

proof fn lemma_session_models_push(pre: Seq<Session>, x: Session)
    ensures
        session_models(pre.push(x)) =~= session_models(pre).push(x@),
{
    assert(session_models(pre.push(x)).len() == pre.len() + 1);
    assert(forall|k: int| 0 <= k < pre.len() ==> pre.push(x)[k] == pre[k]);
    assert(pre.push(x)[pre.len() as int] == x);
}

/// Copies a list of address records.
fn clone_addresses(v: &Vec<PublicAddress>) -> (r: Vec<PublicAddress>)
    ensures
        addr_models(r@) == addr_models(v@),
{
    let mut r: Vec<PublicAddress> = Vec::new();
    let mut i: usize = 0;
    while i < v.len()
        invariant
            i <= v.len(),
            addr_models(r@) =~= addr_models(v@).take(i as int),
        decreases v.len() - i,
    {
        let ghost pre = r@;
        r.push(v[i].clone());
        proof {
            lemma_addr_models_push(pre, r@[pre.len() as int]);
            assert(addr_models(v@)[i as int] == v@[i as int]@);
            assert(addr_models(r@) =~= addr_models(v@).take(i + 1));
        }
        i += 1;
    }
    proof {
        assert(addr_models(v@).take(v@.len() as int) =~= addr_models(v@));
    }
    r
}

impl Clone for Session {
    fn clone(&self) -> (r: Self)
        ensures
            r@ == self@,
    {
        let r = Session {
            session_number: self.session_number,
            grainpath: self.grainpath.clone(),
            timestamp: self.timestamp,
            addresses: clone_addresses(&self.addresses),
        };
        proof {
            assert(r@ =~= self@);
        }
        r
    }
}

/// The derived read-only counter view.
#[derive(Debug)]
pub struct CounterMetadata {
    pub sheaf_count: u64,
    pub kae3g_position: u64,
    pub total_addresses: u64,
    pub total_sessions: u64,
    pub philosophy: String,
}

/// The sheaf registry's state: a session counter, the session log keyed by
/// session number, and the ordered address list.
pub struct SheafRegistry {
    session_counter: u64,
    session_log: Vec<Session>,
    address_list: Vec<PublicAddress>,
}

impl SheafRegistry {
    /// The current session counter, equal to the number of sessions created.
    pub closed spec fn counter(&self) -> u64 {
        self.session_counter
    }

    /// The sessions created so far, in creation order.
    pub closed spec fn sessions(&self) -> Seq<SessionModel> {
        session_models(self.session_log@)
    }

    /// The address records inserted so far, in insertion order.
    pub closed spec fn addresses(&self) -> Seq<AddressModel> {
        addr_models(self.address_list@)
    }

    /// The registry's invariant: the counter counts the sessions, the k-th
    /// session (counting from 1) carries number k, and every stored address
    /// sits in a valid sheaf slot.
    pub open spec fn wf(&self) -> bool {
        &&& self.counter() == self.sessions().len()
        &&& forall|i: int|
            0 <= i < self.sessions().len() ==> (#[trigger] self.sessions()[i]).session_number
                == i + 1
        &&& forall|i: int|
            0 <= i < self.addresses().len() ==> 1 <= (#[trigger] self.addresses()[i]).sheaf_position
                <= SHEAF_COUNT
    }

    /// A fresh, empty registry.
    pub fn new() -> (r: Self)
        ensures
            r.wf(),
            r.counter() == 0,
            r.sessions() == Seq::<SessionModel>::empty(),
            r.addresses() == Seq::<AddressModel>::empty(),
    {
        let r = SheafRegistry {
            session_counter: 0,
            session_log: Vec::new(),
            address_list: Vec::new(),
        };
        proof {
            assert(r.sessions() =~= Seq::<SessionModel>::empty());
            assert(r.addresses() =~= Seq::<AddressModel>::empty());
        }
        r
    }

    /// Appends a timestamped address record after validating its sheaf slot;
    /// an out-of-range slot is rejected and leaves the registry unchanged.
    pub fn add_public_address(
        &mut self,
        chain: ChainType,
        address: String,
        sheaf_position: u64,
        grainpath: String,
        now: u64,
    ) -> (r: Result<u64, String>)
        requires
            old(self).wf(),
        ensures
            final(self).wf(),
            1 <= sheaf_position <= SHEAF_COUNT ==> {
                &&& r matches Ok(n) && n == old(self).addresses().len() + 1
                &&& final(self).addresses() == old(self).addresses().push(
                    AddressModel {
                        chain: chain,
                        address: address@,
                        sheaf_position: sheaf_position,
                        timestamp: now,
                        grainpath: grainpath@,
                    },
                )
                &&& final(self).sessions() == old(self).sessions()
                &&& final(self).counter() == old(self).counter()
            },
            !(1 <= sheaf_position <= SHEAF_COUNT) ==> {
                &&& r matches Err(e) && e@ == "Sheaf position must be between 1 and 88"@
                &&& *final(self) == *old(self)
            },
    {
        if sheaf_position < 1 || sheaf_position > SHEAF_COUNT {
            return Err(String::from_str("Sheaf position must be between 1 and 88"));
        }
        let new_address = PublicAddress {
            chain,
            address,
            sheaf_position,
            timestamp: now,
            grainpath,
        };
        let ghost pre = self.address_list@;
        let ghost m = new_address@;
        self.address_list.push(new_address);
        proof {
            lemma_addr_models_push(pre, self.address_list@[pre.len() as int]);
            assert(self.addresses() =~= old(self).addresses().push(m));
        }
        Ok(self.address_list.len() as u64)
    }

    /// Appends a batch of address records, all or none: if any record's
    /// sheaf slot is out of range, nothing is appended.
    pub fn batch_add_addresses(&mut self, addresses: Vec<PublicAddress>) -> (r: Result<
        u64,
        String,
    >)
        requires
            old(self).wf(),
        ensures
            final(self).wf(),
            all_positions_valid(addr_models(addresses@)) ==> {
                &&& r matches Ok(n) && n == old(self).addresses().len() + addresses@.len()
                &&& final(self).addresses() == old(self).addresses() + addr_models(addresses@)
                &&& final(self).sessions() == old(self).sessions()
                &&& final(self).counter() == old(self).counter()
            },
            !all_positions_valid(addr_models(addresses@)) ==> {
                &&& r matches Err(e) && e@ == "All sheaf positions must be between 1 and 88"@
                &&& *final(self) == *old(self)
            },
    {
        let ghost ms = addr_models(addresses@);
        let mut i: usize = 0;
        while i < addresses.len()
            invariant
                self == old(self),
                old(self).wf(),
                i <= addresses@.len(),
                ms == addr_models(addresses@),
                forall|j: int| 0 <= j < i ==> 1 <= (#[trigger] ms[j]).sheaf_position <= SHEAF_COUNT,
            decreases addresses@.len() - i,
        {
            proof {
                assert(ms[i as int] == addresses@[i as int]@);
            }
            if addresses[i].sheaf_position < 1 || addresses[i].sheaf_position > SHEAF_COUNT {
                return Err(String::from_str("All sheaf positions must be between 1 and 88"));
            }
            i += 1;
        }
        let mut k: usize = 0;
        while k < addresses.len()
            invariant
                k <= addresses@.len(),
                ms == addr_models(addresses@),
                all_positions_valid(ms),
                old(self).wf(),
                self.session_log == old(self).session_log,
                self.session_counter == old(self).session_counter,
                self.addresses() =~= old(self).addresses() + ms.take(k as int),
            decreases addresses@.len() - k,
        {
            let ghost pre = self.address_list@;
            proof {
                assert(ms[k as int] == addresses@[k as int]@);
            }
            self.address_list.push(addresses[k].clone());
            proof {
                lemma_addr_models_push(pre, self.address_list@[pre.len() as int]);
                assert(self.addresses() =~= old(self).addresses() + ms.take(k + 1));
            }
            k += 1;
        }
        proof {
            assert(ms.take(ms.len() as int) =~= ms);
            assert(self.addresses().len() == self.address_list@.len());
        }
        Ok(self.address_list.len() as u64)
    }

    /// Increments the session counter and records a new session under the new
    /// counter value, which it returns. The contained addresses are stored as
    /// given, without validation.
    pub fn create_session(&mut self, grainpath: String, addresses: Vec<PublicAddress>, now: u64) -> (r:
        u64)
        requires
            old(self).wf(),
            old(self).counter() < u64::MAX,
        ensures
            final(self).wf(),
            r == old(self).counter() + 1,
            final(self).counter() == r,
            final(self).sessions() == old(self).sessions().push(
                SessionModel {
                    session_number: r,
                    grainpath: grainpath@,
                    timestamp: now,
                    addresses: addr_models(addresses@),
                },
            ),
            final(self).addresses() == old(self).addresses(),
    {
        self.session_counter = self.session_counter + 1;
        let session_number = self.session_counter;
        let new_session = Session {
            session_number,
            grainpath,
            timestamp: now,
            addresses,
        };
        let ghost pre = self.session_log@;
        self.session_log.push(new_session);
        proof {
            lemma_session_models_push(pre, self.session_log@[pre.len() as int]);
            assert(self.sessions() =~= old(self).sessions().push(
                self.session_log@[pre.len() as int]@,
            ));
        }
        session_number
    }

    /// Copies of all sessions, in creation order.
    pub fn get_all_sessions(&self) -> (r: Vec<Session>)
        ensures
            session_models(r@) == self.sessions(),
    {
        let mut r: Vec<Session> = Vec::new();
        let mut i: usize = 0;
        while i < self.session_log.len()
            invariant
                i <= self.session_log.len(),
                session_models(r@) =~= self.sessions().take(i as int),
            decreases self.session_log.len() - i,
        {
            let ghost pre = r@;
            r.push(self.session_log[i].clone());
            proof {
                lemma_session_models_push(pre, r@[pre.len() as int]);
                assert(self.sessions()[i as int] == self.session_log@[i as int]@);
                assert(session_models(r@) =~= self.sessions().take(i + 1));
            }
            i += 1;
        }
        proof {
            assert(self.sessions().take(self.session_log@.len() as int) =~= self.sessions());
        }
        r
    }

    /// A copy of the session with the given number, if it was assigned.
    pub fn get_session(&self, session_number: u64) -> (r: Option<Session>)
        requires
            self.wf(),
        ensures
            1 <= session_number <= self.counter() ==> (r matches Some(s) && s@ == self.sessions()[
                session_number - 1
            ]),
            !(1 <= session_number <= self.counter()) ==> r is None,
    {
        let n = self.session_log.len();
        if 1 <= session_number && session_number <= self.session_counter {
            proof {
                assert(session_number <= n);
            }
            let idx = (session_number as usize) - 1;
            proof {
                assert(self.sessions()[idx as int] == self.session_log@[idx as int]@);
            }
            Some(self.session_log[idx].clone())
        } else {
            None
        }
    }

    /// Copies of all stored addresses, in insertion order.
    pub fn get_all_sheaf_addresses(&self) -> (r: Vec<PublicAddress>)
        ensures
            addr_models(r@) == self.addresses(),
    {
        clone_addresses(&self.address_list)
    }

    /// Copies of exactly those addresses whose chain equals `chain`, in
    /// insertion order.
    pub fn get_addresses_by_chain(&self, chain: ChainType) -> (r: Vec<PublicAddress>)
        ensures
            addr_models(r@) == by_chain(self.addresses(), chain),
    {
        let ghost s = self.addresses();
        let mut r: Vec<PublicAddress> = Vec::new();
        let mut i: usize = 0;
        while i < self.address_list.len()
            invariant
                i <= self.address_list.len(),
                s == self.addresses(),
                addr_models(r@) =~= by_chain(s.take(i as int), chain),
            decreases self.address_list.len() - i,
        {
            proof {
                assert(s[i as int] == self.address_list@[i as int]@);
            }
            let ghost pre = r@;
            if self.address_list[i].chain == chain {
                r.push(self.address_list[i].clone());
                proof {
                    lemma_addr_models_push(pre, r@[pre.len() as int]);
                }
            }
            proof {
                reveal(Seq::filter);
                assert(s.take(i + 1).drop_last() =~= s.take(i as int));
                assert(s.take(i + 1).last() == s[i as int]);
                assert(addr_models(r@) =~= by_chain(s.take(i + 1), chain));
            }
            i += 1;
        }
        proof {
            assert(s.take(self.address_list@.len() as int) =~= s);
        }
        r
    }

    /// Copies of exactly those addresses whose sheaf slot equals `position`,
    /// in insertion order.
    pub fn get_addresses_by_sheaf_position(&self, position: u64) -> (r: Vec<PublicAddress>)
        ensures
            addr_models(r@) == by_position(self.addresses(), position),
    {
        let ghost s = self.addresses();
        let mut r: Vec<PublicAddress> = Vec::new();
        let mut i: usize = 0;
        while i < self.address_list.len()
            invariant
                i <= self.address_list.len(),
                s == self.addresses(),
                addr_models(r@) =~= by_position(s.take(i as int), position),
            decreases self.address_list.len() - i,
        {
            proof {
                assert(s[i as int] == self.address_list@[i as int]@);
            }
            let ghost pre = r@;
            if self.address_list[i].sheaf_position == position {
                r.push(self.address_list[i].clone());
                proof {
                    lemma_addr_models_push(pre, r@[pre.len() as int]);
                }
            }
            proof {
                reveal(Seq::filter);
                assert(s.take(i + 1).drop_last() =~= s.take(i as int));
                assert(s.take(i + 1).last() == s[i as int]);
                assert(addr_models(r@) =~= by_position(s.take(i + 1), position));
            }
            i += 1;
        }
        proof {
            assert(s.take(self.address_list@.len() as int) =~= s);
        }
        r
    }

    /// The current session counter value.
    pub fn get_session_count(&self) -> (r: u64)
        ensures
            r == self.counter(),
    {
        self.session_counter
    }

    /// The counter metadata: the two fixed slots, the live totals, and the
    /// fixed philosophy line. The fixed fields do not depend on the state.
    pub fn get_88_counter_metadata(&self) -> (r: CounterMetadata)
        ensures
            r.sheaf_count == SHEAF_COUNT,
            r.kae3g_position == KAE3G_SHEAF_POSITION,
            r.total_addresses == self.addresses().len(),
            r.total_sessions == self.counter(),
            r.philosophy@ == "88 × 10^n >= 0 | -1, now == next + 1, kae3g sheaf (1-of-88)"@,
    {
        proof {
            assert(self.addresses().len() == self.address_list@.len());
        }
        CounterMetadata {
            sheaf_count: SHEAF_COUNT,
            kae3g_position: KAE3G_SHEAF_POSITION,
            total_addresses: self.address_list.len() as u64,
            total_sessions: self.session_counter,
            philosophy: String::from_str(
                "88 × 10^n >= 0 | -1, now == next + 1, kae3g sheaf (1-of-88)",
            ),
        }
    }
}

/// Every position stored in a batch lies in a valid sheaf slot.
pub open spec fn all_positions_valid(s: Seq<AddressModel>) -> bool {
    forall|i: int| 0 <= i < s.len() ==> 1 <= (#[trigger] s[i]).sheaf_position <= SHEAF_COUNT
}

/// The subsequence of `s` whose records belong to `chain`, in order.
pub open spec fn by_chain(s: Seq<AddressModel>, chain: ChainType) -> Seq<AddressModel> {
    s.filter(|a: AddressModel| a.chain == chain)
}

/// The subsequence of `s` whose records sit in slot `position`, in order.
pub open spec fn by_position(s: Seq<AddressModel>, position: u64) -> Seq<AddressModel> {
    s.filter(|a: AddressModel| a.sheaf_position == position)
}

/// In a well-formed registry the session numbers are exactly 1 through the
/// counter value, in order, with no gaps and no repeats — however many
/// address operations were interleaved with the session creations.
pub proof fn lemma_session_numbers(r: SheafRegistry)
    requires
        r.wf(),
    ensures
        forall|i: int|
            0 <= i < r.sessions().len() ==> (#[trigger] r.sessions()[i]).session_number == i + 1,
        forall|i: int, j: int|
            0 <= i < j < r.sessions().len() ==> (#[trigger] r.sessions()[i]).session_number != (
            #[trigger] r.sessions()[j]).session_number,
{
}

/// No session number between 1 and the counter value is missing: each was
/// assigned by exactly one session creation.
pub proof fn lemma_session_number_present(r: SheafRegistry, k: u64)
    requires
        r.wf(),
        1 <= k <= r.counter(),
    ensures
        exists|i: int|
            0 <= i < r.sessions().len() && (#[trigger] r.sessions()[i]).session_number == k,
{
    assert(r.sessions()[k - 1].session_number == k);
}

} // verus!
