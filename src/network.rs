//! Finds the configured network interface among the live ones and reports its
//! identity, or an explicit disconnected state.

use crate::sampler::{rate_per_second, transfer_rate};
use vstd::prelude::*;

verus! {

/// Whether `regex` accepts `pattern` as a regular expression.
pub uninterp spec fn pattern_compiles(pattern: Seq<char>) -> bool;

/// Whether the compiled `pattern` matches somewhere in `text`.
pub uninterp spec fn pattern_matches(pattern: Seq<char>, text: Seq<char>) -> bool;

/// Relies on `regex::Regex::new`, which fails exactly on patterns it does not accept,
/// and on `Regex::is_match`, whose answer depends on the pattern and the text alone.
#[verifier::external_body]
fn regex_is_match(pattern: &str, text: &str) -> (r: Option<bool>)
    ensures
        r is Some <==> pattern_compiles(pattern@),
        r matches Some(b) ==> b == pattern_matches(pattern@, text@),
{
    match regex::Regex::new(pattern) {
        Ok(re) => Some(re.is_match(text)),
        Err(_) => None,
    }
}

/// The byte counters that the OS keeps for one interface. `received` and
/// `transmitted` are what moved since the previous refresh.
pub struct InterfaceCounters {
    pub name: String,
    pub total_received: u64,
    pub total_transmitted: u64,
    pub received: u64,
    pub transmitted: u64,
}

/// One bound address from the OS address table: an IPv4 address as a 32-bit number.
pub struct AddressEntry {
    pub interface: String,
    pub address: u32,
}

/// What the network panel shows of the matched interface.
pub struct NetworkIdentity {
    pub interface_name: String,
    pub local_addresses: Vec<u32>,
    pub total_received: u64,
    pub total_transmitted: u64,
    pub download_rate: u64,
    pub upload_rate: u64,
}

/// The network state: not sampled yet, no usable interface, or the identity of one.
pub enum NetworkState {
    NotSampled,
    Disconnected,
    Connected(NetworkIdentity),
}

impl NetworkState {
    /// The addresses shown: none unless connected.
    pub fn local_addresses(&self) -> (r: Vec<u32>)
        ensures
            !(self is Connected) ==> r@.len() == 0,
            self matches NetworkState::Connected(id) ==> r@ == id.local_addresses@,
    {
        match self {
            NetworkState::Connected(id) => id.local_addresses.clone(),
            _ => Vec::new(),
        }
    }

    pub fn is_connected(&self) -> (r: bool)
        ensures
            r == self is Connected,
    {
        match self {
            NetworkState::Connected(_) => true,
            _ => false,
        }
    }
}

/// The interface pattern is not a regular expression.
pub enum PatternError {
    Invalid,
}

/// The position of the first interface whose name the pattern matches.
pub open spec fn first_match(pattern: Seq<char>, interfaces: Seq<InterfaceCounters>) -> Option<
    int,
> {
    if exists|i: int|
        0 <= i < interfaces.len() && #[trigger] pattern_matches(pattern, interfaces[i].name@) {
        let i = choose|i: int|
            0 <= i < interfaces.len() && #[trigger] pattern_matches(pattern, interfaces[i].name@)
                && forall|j: int|
                0 <= j < i ==> !#[trigger] pattern_matches(pattern, interfaces[j].name@);
        Some(i)
    } else {
        None
    }
}

/// The addresses bound to the interface called `name`, in table order.
pub open spec fn addresses_for(entries: Seq<AddressEntry>, name: Seq<char>) -> Seq<u32>
    decreases entries.len(),
{
    if entries.len() == 0 {
        Seq::empty()
    } else {
        let rest = addresses_for(entries.drop_last(), name);
        if entries.last().interface@ == name {
            rest.push(entries.last().address)
        } else {
            rest
        }
    }
}

/// The first interface whose name `pattern` matches, if any.
pub fn find_interface(pattern: &str, interfaces: &Vec<InterfaceCounters>) -> (r: Result<
    Option<usize>,
    PatternError,
>)
    ensures
        r is Err <==> !pattern_compiles(pattern@),
        r matches Ok(found) ==> match found {
            Some(i) => i < interfaces.len() && first_match(pattern@, interfaces@) == Some(i as int),
            None => first_match(pattern@, interfaces@) is None,
        },
{
    if regex_is_match(pattern, "").is_none() {
        return Err(PatternError::Invalid);
    }
    let mut i: usize = 0;
    while i < interfaces.len()
        invariant
            i <= interfaces.len(),
            pattern_compiles(pattern@),
            forall|j: int| 0 <= j < i ==> !#[trigger] pattern_matches(pattern@, interfaces@[j].name@),
        decreases interfaces.len() - i,
    {
        match regex_is_match(pattern, interfaces[i].name.as_str()) {
            None => {
                return Err(PatternError::Invalid);
            },
            Some(true) => {
                proof {
                    let f = first_match(pattern@, interfaces@);
                    assert(pattern_matches(pattern@, interfaces@[i as int].name@));
                    let c = choose|c: int|
                        0 <= c < interfaces.len() && #[trigger] pattern_matches(
                            pattern@,
                            interfaces@[c].name@,
                        ) && forall|j: int|
                            0 <= j < c ==> !#[trigger] pattern_matches(
                                pattern@,
                                interfaces@[j].name@,
                            );
                    assert(c == i as int) by {
                        if c < i {
                        } else if c > i {
                            assert(!pattern_matches(pattern@, interfaces@[i as int].name@));
                        }
                    }
                }
                return Ok(Some(i));
            },
            Some(false) => {},
        }
        i = i + 1;
    }
    Ok(None)
}

/// The addresses that the address table binds to the interface called `name`.
pub fn addresses_of(name: &String, entries: &Vec<AddressEntry>) -> (r: Vec<u32>)
    ensures
        r@ == addresses_for(entries@, name@),
{
    let mut r: Vec<u32> = Vec::new();
    let mut i: usize = 0;
    while i < entries.len()
        invariant
            i <= entries.len(),
            r@ == addresses_for(entries@.take(i as int), name@),
        decreases entries.len() - i,
    {
        proof {
            assert(entries@.take(i as int + 1).drop_last() == entries@.take(i as int));
        }
        if entries[i].interface == *name {
            r.push(entries[i].address);
        }
        i = i + 1;
    }
    assert(entries@.take(entries.len() as int) == entries@);
    r
}

/// The state that one network tick reports: the first interface that the pattern
/// matches, with the addresses the address table binds to that same name; and
/// `Disconnected` when no interface matches or the match has no address.
pub open spec fn network_state_ok(
    pattern: Seq<char>,
    interfaces: Seq<InterfaceCounters>,
    addresses: Seq<AddressEntry>,
    elapsed: u64,
    state: NetworkState,
) -> bool {
    match first_match(pattern, interfaces) {
        None => state is Disconnected,
        Some(i) => {
            let c = interfaces[i];
            let found = addresses_for(addresses, c.name@);
            if found.len() == 0 {
                state is Disconnected
            } else {
                state matches NetworkState::Connected(id) && id.interface_name@ == c.name@
                    && id.local_addresses@ == found && id.total_received == c.total_received
                    && id.total_transmitted == c.total_transmitted && id.download_rate
                    == rate_per_second(c.received, elapsed) && id.upload_rate == rate_per_second(
                    c.transmitted,
                    elapsed,
                )
            }
        },
    }
}

/// Resolves the network identity for one tick; `elapsed` is the seconds since the
/// previous refresh of the counters.
pub fn resolve_network(
    pattern: &str,
    interfaces: &Vec<InterfaceCounters>,
    addresses: &Vec<AddressEntry>,
    elapsed: u64,
) -> (r: Result<NetworkState, PatternError>)
    ensures
        r is Err <==> !pattern_compiles(pattern@),
        r matches Ok(state) ==> network_state_ok(
            pattern@,
            interfaces@,
            addresses@,
            elapsed,
            state,
        ),
{
    match find_interface(pattern, interfaces) {
        Err(e) => Err(e),
        Ok(None) => Ok(NetworkState::Disconnected),
        Ok(Some(i)) => {
            let c = &interfaces[i];
            let local_addresses = addresses_of(&c.name, addresses);
            if local_addresses.len() == 0 {
                Ok(NetworkState::Disconnected)
            } else {
                Ok(
                    NetworkState::Connected(
                        NetworkIdentity {
                            interface_name: c.name.clone(),
                            local_addresses,
                            total_received: c.total_received,
                            total_transmitted: c.total_transmitted,
                            download_rate: transfer_rate(c.received, elapsed),
                            upload_rate: transfer_rate(c.transmitted, elapsed),
                        },
                    ),
                )
            }
        },
    }
}


/// The public address shown: the last one a lookup found.
pub struct PublicAddress {
    pub shown: Option<String>,
}

impl PublicAddress {
    pub fn new() -> (r: Self)
        ensures
            r.shown is None,
    {
        PublicAddress { shown: None }
    }

    /// Takes the result of one lookup; a failed one leaves the last address in place.
    pub fn record(&mut self, lookup: Option<String>)
        ensures
            lookup is Some ==> final(self).shown == lookup,
            lookup is None ==> final(self).shown == old(self).shown,
    {
        match lookup {
            Some(address) => self.shown = Some(address),
            None => {},
        }
    }
}


/// When the pattern matches no live interface, the resolved state is
/// `Disconnected`, which shows no address.
pub proof fn lemma_no_match_is_disconnected(
    pattern: Seq<char>,
    interfaces: Seq<InterfaceCounters>,
    addresses: Seq<AddressEntry>,
    elapsed: u64,
    state: NetworkState,
)
    requires
        forall|i: int| 0 <= i < interfaces.len() ==> !#[trigger] pattern_matches(pattern, interfaces[i].name@),
        network_state_ok(pattern, interfaces, addresses, elapsed, state),
    ensures
        state is Disconnected,
{
}

} // verus!
