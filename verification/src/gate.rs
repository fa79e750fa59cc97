//! The request gate: with rate limiting on, a client address has at most one request in
//! flight.

use dashmap::DashSet;
use vstd::prelude::*;

verus! {

/// `dashmap::DashSet`, the set that holds the addresses. Nothing is known of a value of it
/// but what `held_keys` names.
#[verifier::external_type_specification]
#[verifier::external_body]
#[verifier::reject_recursive_types(K)]
#[verifier::reject_recursive_types(S)]
pub struct ExDashSet<K, S>(DashSet<K, S>);

/// The keys that a set of client addresses holds.
pub uninterp spec fn held_keys(set: DashSet<(u8, u128)>) -> Set<(u8, u128)>;

/// `DashSet::new`: the new set holds no key.
#[verifier::external_body]
fn key_set_new() -> (set: DashSet<(u8, u128)>)
    ensures
        held_keys(set) == Set::<(u8, u128)>::empty(),
{
    DashSet::new()
}

/// `DashSet::insert`: the key is in the set afterwards, no other key comes or goes, and the
/// result says whether the key was absent before.
#[verifier::external_body]
fn key_set_insert(set: &mut DashSet<(u8, u128)>, key: (u8, u128)) -> (fresh: bool)
    ensures
        fresh == !held_keys(*old(set)).contains(key),
        held_keys(*final(set)) == held_keys(*old(set)).insert(key),
{
    set.insert(key)
}

/// `DashSet::remove`: the key is not in the set afterwards, no other key comes or goes, and
/// the key is handed back if it was present.
#[verifier::external_body]
fn key_set_remove(set: &mut DashSet<(u8, u128)>, key: (u8, u128)) -> (removed: Option<(u8, u128)>)
    ensures
        removed == (if held_keys(*old(set)).contains(key) {
            Some(key)
        } else {
            None
        }),
        held_keys(*final(set)) == held_keys(*old(set)).remove(key),
{
    set.remove(&key)
}

/// The address of a client: the 32 bits of an IPv4 address or the 128 bits of an IPv6
/// address.
#[derive(Debug, Clone, Copy, PartialEq, Eq, Hash)]
pub enum ClientAddr {
    V4(u32),
    V6(u128),
}

impl ClientAddr {
    /// The key under which the address is kept: the version of the protocol and the bits.
    pub open spec fn key(self) -> (u8, u128) {
        match self {
            ClientAddr::V4(bits) => (4u8, bits as u128),
            ClientAddr::V6(bits) => (6u8, bits),
        }
    }

    fn to_key(&self) -> (key: (u8, u128))
        ensures
            key == self.key(),
    {
        match self {
            ClientAddr::V4(bits) => (4u8, *bits as u128),
            ClientAddr::V6(bits) => (6u8, *bits),
        }
    }
}

/// Proof that a request was let in. It is handed back when the request is over.
#[derive(Debug, PartialEq, Eq)]
pub struct Token {
    addr: ClientAddr,
}

impl Token {
    /// The address that the token was given to.
    pub closed spec fn addr(&self) -> ClientAddr {
        self.addr
    }

    /// The address that the token was given to.
    pub fn client(&self) -> (addr: ClientAddr)
        ensures
            addr == self.addr(),
    {
        self.addr
    }
}

/// The answer to a request that asks to be let in.
#[derive(Debug, PartialEq, Eq)]
pub enum Admission {
    Admitted(Token),
    Rejected,
}

/// Whether a request of the given address is let in: it is unless rate limiting
/// is on and the address has a request in flight.
pub open spec fn admits(waiting: Set<ClientAddr>, rate_limiting: bool, addr: ClientAddr) -> bool {
    !rate_limiting || !waiting.contains(addr)
}

/// The addresses with a request in flight after a request of the given address has asked
/// to be let in.
pub open spec fn after_admit(waiting: Set<ClientAddr>, rate_limiting: bool, addr: ClientAddr) -> Set<
    ClientAddr,
> {
    if rate_limiting {
        waiting.insert(addr)
    } else {
        waiting
    }
}

/// Something that happens at the door.
pub enum GateEvent {
    /// A request of the address asks to be let in.
    Arrived(ClientAddr),
    /// A request of the address that was let in is over.
    Left(ClientAddr),
}

/// The addresses with a request in flight after the given events, in their order.
pub open spec fn waiting_after(
    waiting: Set<ClientAddr>,
    rate_limiting: bool,
    events: Seq<GateEvent>,
) -> Set<ClientAddr>
    decreases events.len(),
{
    if events.len() == 0 {
        waiting
    } else {
        let before = waiting_after(waiting, rate_limiting, events.drop_last());
        match events.last() {
            GateEvent::Arrived(addr) => after_admit(before, rate_limiting, addr),
            GateEvent::Left(addr) => before.remove(addr),
        }
    }
}

/// With rate limiting on, an address has one request in flight at most: once a request
/// of it has asked to be let in, whatever else happens, a further request of the same
/// address is rejected until a request of that address is over.
pub proof fn lemma_one_request_per_address(
    waiting: Set<ClientAddr>,
    addr: ClientAddr,
    events: Seq<GateEvent>,
)
    requires
        forall|i: int| 0 <= i < events.len() ==> events[i] != GateEvent::Left(addr),
    ensures
        !admits(waiting_after(after_admit(waiting, true, addr), true, events), true, addr),
    decreases events.len(),
{
    if events.len() > 0 {
        let earlier = events.drop_last();
        assert forall|i: int| 0 <= i < earlier.len() implies earlier[i] != GateEvent::Left(
            addr,
        ) by {
            assert(earlier[i] == events[i]);
        }
        lemma_one_request_per_address(waiting, addr, earlier);
        assert(events.last() == events[events.len() - 1]);
    }
}

/// The request gate: the addresses that have a request in flight.
pub struct RequestGate {
    rate_limiting: bool,
    waiting: DashSet<(u8, u128)>,
}

impl RequestGate {
    /// The addresses that have a request in flight.
    pub closed spec fn waiting(&self) -> Set<ClientAddr> {
        Set::new(|addr: ClientAddr| held_keys(self.waiting).contains(addr.key()))
    }

    /// Whether rate limiting is on.
    pub closed spec fn rate_limiting(&self) -> bool {
        self.rate_limiting
    }

    /// A gate with no request in flight.
    pub fn new(rate_limiting: bool) -> (gate: Self)
        ensures
            gate.waiting() == Set::<ClientAddr>::empty(),
            gate.rate_limiting() == rate_limiting,
    {
        let gate = RequestGate { rate_limiting, waiting: key_set_new() };
        proof {
            assert(gate.waiting() =~= Set::<ClientAddr>::empty());
        }
        gate
    }

    /// Asks to let a request of the given address in. With rate limiting on, the request
    /// is let in if the address has no request in flight, and the address has one
    /// afterwards. With rate limiting off, every request is let in and nothing is noted.
    pub fn enter(&mut self, addr: ClientAddr) -> (admission: Admission)
        ensures
            final(self).rate_limiting() == old(self).rate_limiting(),
            final(self).waiting() == after_admit(
                old(self).waiting(),
                old(self).rate_limiting(),
                addr,
            ),
            match admission {
                Admission::Admitted(token) => token.addr() == addr && admits(
                    old(self).waiting(),
                    old(self).rate_limiting(),
                    addr,
                ),
                Admission::Rejected => !admits(
                    old(self).waiting(),
                    old(self).rate_limiting(),
                    addr,
                ),
            },
    {
        if !self.rate_limiting {
            return Admission::Admitted(Token { addr });
        }
        let fresh = key_set_insert(&mut self.waiting, addr.to_key());
        proof {
            assert(final(self).waiting() =~= old(self).waiting().insert(addr));
        }
        if fresh {
            Admission::Admitted(Token { addr })
        } else {
            Admission::Rejected
        }
    }

    /// Ends the request that the token was given to: its address has no request in flight
    /// afterwards.
    pub fn release(&mut self, token: Token)
        ensures
            final(self).rate_limiting() == old(self).rate_limiting(),
            final(self).waiting() == old(self).waiting().remove(token.addr()),
    {
        let _ = key_set_remove(&mut self.waiting, token.addr.to_key());
        proof {
            assert(final(self).waiting() =~= old(self).waiting().remove(token.addr()));
        }
    }
}

} // verus!
