//! Session ledger and consumer context: the per-provider session identity
//! and monotonic usage counters mutated on each dispatch, and the consumer's
//! view of the current ranking together with its signing key.
use vstd::prelude::*;
use vstd::utf8::{encode_utf8, encode_utf8_decode_utf8};

use crate::crypto::SigningKey;
use crate::pairing::{clone_ranked_provider, ranked_views, RankedProvider, RankedProviderView};

verus! {

/// Per-provider dispatch counters: a stable session identifier, the
/// cumulative compute-unit sum, and the relay sequence number.
#[derive(Clone, Copy, PartialEq, Eq, Structural)]
pub struct ProviderSession {
    pub session_id: u64,
    pub cu_sum: u64,
    pub relay_num: u64,
}

/// A fresh session: zero compute units consumed and the relay sequence
/// starting at one.
pub open spec fn spec_fresh_session(id: u64) -> ProviderSession {
    ProviderSession { session_id: id, cu_sum: 0, relay_num: 1 }
}

/// Relies on uuid::Uuid::new_v4, a random 128-bit identifier: nothing is
/// promised of the value, so every caller property must hold of every
/// outcome.
#[verifier::external_body]
fn fresh_session_entropy() -> (r: u128) {
    uuid::Uuid::new_v4().as_u128()
}

/// Decide whether two strings hold the same characters.
pub fn str_eq(a: &str, b: &str) -> (r: bool)
    ensures
        r == (a@ == b@),
{
    let ab = a.as_bytes();
    let bb = b.as_bytes();
    if ab.len() != bb.len() {
        proof {
            assert(a@ != b@);
        }
        return false;
    }
    let n = ab.len();
    let mut i: usize = 0;
    while i < n
        invariant
            n == ab@.len() == bb@.len(),
            ab@ == encode_utf8(a@),
            bb@ == encode_utf8(b@),
            0 <= i <= n,
            forall|j: int| 0 <= j < i ==> ab@[j] == bb@[j],
        decreases n - i,
    {
        if ab[i] != bb[i] {
            proof {
                assert(encode_utf8(a@)[i as int] != encode_utf8(b@)[i as int]);
                assert(a@ != b@);
            }
            return false;
        }
        i = i + 1;
    }
    proof {
        assert(ab@ =~= bb@);
        encode_utf8_decode_utf8(a@);
        encode_utf8_decode_utf8(b@);
        assert(a@ == b@);
    }
    true
}

/// The map an association list of sessions denotes, keyed by address.
pub open spec fn sessions_map(s: Seq<(String, ProviderSession)>) -> Map<Seq<char>, ProviderSession>
    decreases s.len(),
{
    if s.len() == 0 {
        Map::empty()
    } else {
        sessions_map(s.drop_last()).insert(s.last().0@, s.last().1)
    }
}

/// A session list whose addresses are all distinct.
pub open spec fn unique_keys(s: Seq<(String, ProviderSession)>) -> bool {
    forall|i: int, j: int| 0 <= i < j < s.len() ==> (#[trigger] s[i].0)@ != (#[trigger] s[j].0)@
}

/// The map of a list contains exactly the keys of its entries.
proof fn lemma_sessions_map_domain(s: Seq<(String, ProviderSession)>, k: Seq<char>)
    ensures
        sessions_map(s).contains_key(k) <==> exists|i: int|
            0 <= i < s.len() && (#[trigger] s[i].0)@ == k,
    decreases s.len(),
{
    if s.len() > 0 {
        lemma_sessions_map_domain(s.drop_last(), k);
        if s.last().0@ == k {
            assert(s[s.len() - 1].0@ == k);
        } else {
            assert(forall|i: int|
                0 <= i < s.len() - 1 && (#[trigger] s[i].0)@ == k ==> s.drop_last()[i].0@ == k);
        }
    }
}

/// In a unique-key list the map binds each address to its entry's session.
proof fn lemma_sessions_map_at(s: Seq<(String, ProviderSession)>, i: int)
    requires
        unique_keys(s),
        0 <= i < s.len(),
    ensures
        sessions_map(s).contains_key(s[i].0@),
        sessions_map(s)[s[i].0@] == s[i].1,
    decreases s.len(),
{
    if i == s.len() - 1 {
    } else {
        lemma_sessions_map_at(s.drop_last(), i);
        assert(s.drop_last()[i] == s[i]);
        assert(s.last().0@ != s[i].0@);
    }
}

/// Appending a new address extends the map.
proof fn lemma_sessions_map_push(
    s: Seq<(String, ProviderSession)>,
    key: String,
    session: ProviderSession,
)
    ensures
        sessions_map(s.push((key, session))) == sessions_map(s).insert(key@, session),
{
    assert(s.push((key, session)).drop_last() =~= s);
    assert(s.push((key, session)).last() == (key, session));
}

/// The consumer's dispatch context: the session ledger, the ranking adopted
/// for provider selection, and the signing key. The running system guards
/// one instance with a single lock, which also serializes session mutations
/// for a given provider.
pub struct ConsumerSessionContext {
    sessions: Vec<(String, ProviderSession)>,
    ranked_providers: Vec<RankedProvider>,
    pub private_key: SigningKey,
}

impl ConsumerSessionContext {
    /// The session ledger as a map from provider address to session.
    pub closed spec fn sessions_view(&self) -> Map<Seq<char>, ProviderSession> {
        sessions_map(self.sessions@)
    }

    /// The ranking the context currently selects providers from.
    pub closed spec fn ranking_view(&self) -> Seq<RankedProviderView> {
        ranked_views(self.ranked_providers@)
    }

    /// Well-formedness: one ledger entry per provider address.
    pub closed spec fn wf(&self) -> bool {
        unique_keys(self.sessions@)
    }

    /// The signing key the context dispatches with.
    pub closed spec fn signing_key(&self) -> SigningKey {
        self.private_key
    }

    /// A fresh context: an empty ledger, no adopted ranking, and exactly the
    /// given signing key.
    pub fn new(private_key: SigningKey) -> (s: Self)
        ensures
            s.wf(),
            s.sessions_view() == Map::<Seq<char>, ProviderSession>::empty(),
            s.ranking_view() == Seq::<RankedProviderView>::empty(),
            s.signing_key() == private_key,
    {
        let s = ConsumerSessionContext {
            sessions: Vec::new(),
            ranked_providers: Vec::new(),
            private_key,
        };
        proof {
            assert(s.ranking_view() =~= Seq::<RankedProviderView>::empty());
        }
        s
    }

    /// Find the ledger index of an address.
    fn find_session(&self, provider_address: &str) -> (r: Option<usize>)
        requires
            self.wf(),
        ensures
            r matches Some(i) ==> i < self.sessions@.len() && self.sessions@[i as int].0@
                == provider_address@,
            r is None ==> !self.sessions_view().contains_key(provider_address@),
    {
        let len = self.sessions.len();
        for i in 0..len
            invariant
                len == self.sessions@.len(),
                forall|j: int| 0 <= j < i ==> (#[trigger] self.sessions@[j].0)@ != provider_address@,
        {
            if str_eq(self.sessions[i].0.as_str(), provider_address) {
                return Some(i);
            }
        }
        proof {
            lemma_sessions_map_domain(self.sessions@, provider_address@);
        }
        None
    }

    /// Look up the session of an address, or create it on first dispatch: a
    /// fresh session gets a newly drawn identifier (truncated to 32 bits for
    /// the wire encoding), no compute units, and relay number one. An
    /// existing entry is returned unchanged, however often this is called.
    pub fn get_or_create_session(&mut self, provider_address: &str) -> (r: ProviderSession)
        requires
            old(self).wf(),
        ensures
            final(self).wf(),
            final(self).ranking_view() == old(self).ranking_view(),
            old(self).sessions_view().contains_key(provider_address@) ==> final(self).sessions_view() == old(self).sessions_view() && r == old(self).sessions_view()[
                provider_address@
            ],
            !old(self).sessions_view().contains_key(provider_address@) ==> r
                == spec_fresh_session(r.session_id) && r.session_id <= u32::MAX && final(self).sessions_view() == old(self).sessions_view().insert(provider_address@, r),
            final(self).sessions_view().contains_key(provider_address@),
            r == final(self).sessions_view()[provider_address@],
    {
        match self.find_session(provider_address) {
            Some(i) => {
                let r = self.sessions[i].1;
                proof {
                    lemma_sessions_map_at(self.sessions@, i as int);
                }
                r
            },
            None => {
                let entropy = fresh_session_entropy();
                // The wire encoding mishandles identifiers above 32 bits, so
                // the drawn value is truncated to one word.
                let session_id = ((entropy as u64) & 0xffff_ffff) as u64;
                let session = ProviderSession { session_id, cu_sum: 0, relay_num: 1 };
                let ghost before = self.sessions@;
                let mut key = String::new();
                key.append(provider_address);
                self.sessions.push((key, session));
                proof {
                    lemma_sessions_map_domain(before, provider_address@);
                    lemma_sessions_map_push(before, key, session);
                    assert(key@ =~= provider_address@);
                    assert(session_id <= u32::MAX) by (bit_vector)
                        requires
                            session_id == (entropy as u64) & 0xffff_ffff,
                    ;
                    assert(unique_keys(self.sessions@));
                    lemma_sessions_map_at(self.sessions@, self.sessions@.len() - 1);
                }
                session
            },
        }
    }

    /// Charge one relay to an address: ten compute units and one relay
    /// number, applied once per dispatched relay. Doing nothing when no
    /// session exists yet is defensive; dispatch always creates the session
    /// first.
    pub fn update_session(&mut self, provider_address: &str)
        requires
            old(self).wf(),
            old(self).sessions_view().contains_key(provider_address@) ==> old(self).sessions_view()[provider_address@].cu_sum + 10 <= u64::MAX && old(self).sessions_view()[provider_address@].relay_num + 1 <= u64::MAX,
        ensures
            final(self).wf(),
            final(self).ranking_view() == old(self).ranking_view(),
            old(self).sessions_view().contains_key(provider_address@) ==> final(self).sessions_view() == old(self).sessions_view().insert(
                provider_address@,
                spec_updated_session(old(self).sessions_view()[provider_address@]),
            ),
            !old(self).sessions_view().contains_key(provider_address@) ==> final(self).sessions_view() == old(self).sessions_view(),
    {
        match self.find_session(provider_address) {
            Some(i) => {
                proof {
                    lemma_sessions_map_at(self.sessions@, i as int);
                }
                let ghost before = self.sessions@;
                let entry = &mut self.sessions[i];
                let updated = ProviderSession {
                    session_id: entry.1.session_id,
                    cu_sum: entry.1.cu_sum + 10,
                    relay_num: entry.1.relay_num + 1,
                };
                entry.1 = updated;
                proof {
                    assert(self.sessions@ =~= before.update(
                        i as int,
                        (before[i as int].0, updated),
                    ));
                    lemma_sessions_map_update(before, i as int, updated);
                    lemma_sessions_map_at(self.sessions@, i as int);
                }
            },
            None => (),
        }
    }

    /// Select the top-ranked provider for one dispatch, always from the most
    /// recently published ranking: a non-empty freshly fetched ranking is
    /// adopted, replacing whatever was held, and its head returned; an empty
    /// fetch falls back to the ranking already held; none when both are
    /// empty.
    pub fn get_top_provider(&mut self, fetched: Vec<RankedProvider>) -> (r: Option<RankedProvider>)
        requires
            old(self).wf(),
        ensures
            final(self).wf(),
            final(self).sessions_view() == old(self).sessions_view(),
            final(self).signing_key() == old(self).signing_key(),
            ranked_views(fetched@).len() > 0 ==> final(self).ranking_view() == ranked_views(
                fetched@,
            ) && (r matches Some(p) && p@ == ranked_views(fetched@)[0]),
            ranked_views(fetched@).len() == 0 && old(self).ranking_view().len() > 0 ==> final(self).ranking_view() == old(self).ranking_view() && (r matches Some(p) && p@ == old(self).ranking_view()[0]),
            ranked_views(fetched@).len() == 0 && old(self).ranking_view().len() == 0 ==> r is None
                && final(self).ranking_view() == old(self).ranking_view(),
    {
        if fetched.len() > 0 {
            self.ranked_providers = fetched;
        } else if self.ranked_providers.len() == 0 {
            return None;
        }
        Some(clone_ranked_provider(&self.ranked_providers[0]))
    }
}

/// A session after one relay is charged to it.
pub open spec fn spec_updated_session(s: ProviderSession) -> ProviderSession {
    ProviderSession {
        session_id: s.session_id,
        cu_sum: (s.cu_sum + 10) as u64,
        relay_num: (s.relay_num + 1) as u64,
    }
}

/// Updating one entry of a unique-key list updates its binding alone.
proof fn lemma_sessions_map_update(
    s: Seq<(String, ProviderSession)>,
    i: int,
    session: ProviderSession,
)
    requires
        unique_keys(s),
        0 <= i < s.len(),
    ensures
        sessions_map(s.update(i, (s[i].0, session))) == sessions_map(s).insert(s[i].0@, session),
    decreases s.len(),
{
    let t = s.update(i, (s[i].0, session));
    if i == s.len() - 1 {
        assert(t.drop_last() =~= s.drop_last());
        assert(t.last() == (s[i].0, session));
    } else {
        assert(t.drop_last() =~= s.drop_last().update(i, (s[i].0, session)));
        assert(t.last() == s.last());
        lemma_sessions_map_update(s.drop_last(), i, session);
        assert(s.drop_last()[i] == s[i]);
        assert(s.last().0@ != s[i].0@);
        assert(sessions_map(t) =~= sessions_map(s).insert(s[i].0@, session));
    }
}

/// The session counters after a number of relays, at mathematical size.
pub open spec fn spec_session_after(id: u64, n: nat) -> (int, int)
    decreases n,
{
    if n == 0 {
        (0, 1)
    } else {
        let prev = spec_session_after(id, (n - 1) as nat);
        (prev.0 + 10, prev.1 + 1)
    }
}

/// Session monotonicity: after the nth update of a fresh session the
/// cumulative compute units are exactly ten per relay and the relay number
/// is one more than the count of updates.
pub proof fn lemma_session_monotonic(id: u64, n: nat)
    ensures
        spec_session_after(id, n).0 == 10 * n,
        spec_session_after(id, n).1 == 1 + n,
    decreases n,
{
    if n > 0 {
        lemma_session_monotonic(id, (n - 1) as nat);
    }
}

/// Idempotent session creation: looking an address up in the map a first
/// call produced returns the same session and changes nothing, whatever
/// identifier a second draw would have produced.
pub proof fn lemma_get_or_create_idempotent(
    m: Map<Seq<char>, ProviderSession>,
    addr: Seq<char>,
    id1: u64,
    id2: u64,
)
    ensures
        ({
            let first = m.insert(addr, spec_fresh_session(id1));
            first.contains_key(addr) && first[addr] == spec_fresh_session(id1) && first.insert(
                addr,
                first[addr],
            ) == first
        }),
{
    let first = m.insert(addr, spec_fresh_session(id1));
    assert(first.insert(addr, first[addr]) =~= first);
}

} // verus!
