use crate::constants::FETCH_RETRY_SLEEP_DELAY;
use crate::error::L8Error;
use vstd::prelude::*;

verus! {

/// The keys of a tunnel: the key exchange client that holds the shared secret, by the
/// number under which its owner keeps it, and the two tokens that the proxy issued.
#[derive(Debug, PartialEq, Eq)]
pub struct InitTunnelResult {
    pub client: u64,
    pub int_rp_jwt: String,
    pub int_fp_jwt: String,
}

/// A tunnel that is ready for use.
#[derive(Debug, PartialEq, Eq)]
pub struct NetworkStateOpen {
    pub init_tunnel_result: InitTunnelResult,
    pub forward_proxy_url: String,
}

/// The state of a provider's tunnel.
#[derive(Debug, PartialEq, Eq)]
pub enum NetworkState {
    /// The tunnel is being set up.
    CONNECTING,
    /// The tunnel is ready for use.
    OPEN(NetworkStateOpen),
    /// The tunnel could not be set up.
    ERRORED(L8Error),
}

/// What one look at a provider's tunnel tells a caller who waits for it.
#[derive(Debug, PartialEq, Eq)]
pub enum NetworkStatePoll {
    /// The tunnel is ready: a copy of it.
    Open(NetworkStateOpen),
    /// The tunnel is being set up: look again after so many milliseconds.
    Wait(i32),
    /// There is no tunnel to wait for.
    Failed(L8Error),
}

impl Clone for InitTunnelResult {
    fn clone(&self) -> (copy: Self)
        ensures
            copy == *self,
    {
        InitTunnelResult {
            client: self.client,
            int_rp_jwt: self.int_rp_jwt.clone(),
            int_fp_jwt: self.int_fp_jwt.clone(),
        }
    }
}

impl Clone for NetworkStateOpen {
    fn clone(&self) -> (copy: Self)
        ensures
            copy == *self,
    {
        NetworkStateOpen {
            init_tunnel_result: self.init_tunnel_result.clone(),
            forward_proxy_url: self.forward_proxy_url.clone(),
        }
    }
}

impl Clone for NetworkState {
    fn clone(&self) -> (copy: Self)
        ensures
            copy == *self,
    {
        match self {
            NetworkState::CONNECTING => NetworkState::CONNECTING,
            NetworkState::OPEN(open) => NetworkState::OPEN(open.clone()),
            NetworkState::ERRORED(why) => NetworkState::ERRORED(why.clone()),
        }
    }
}

impl NetworkStateOpen {
    /// The token for the reverse proxy.
    pub fn int_rp_jwt(&self) -> (token: String)
        ensures
            token == self.init_tunnel_result.int_rp_jwt,
    {
        self.init_tunnel_result.int_rp_jwt.clone()
    }

    /// The token for the forward proxy.
    pub fn int_fp_jwt(&self) -> (token: String)
        ensures
            token == self.init_tunnel_result.int_fp_jwt,
    {
        self.init_tunnel_result.int_fp_jwt.clone()
    }
}

/// What a waiting caller learns from an entry of the registry.
pub open spec fn poll_of(entry: Option<NetworkState>) -> NetworkStatePoll {
    match entry {
        None => NetworkStatePoll::Failed(L8Error::NotInitialized),
        Some(NetworkState::CONNECTING) => NetworkStatePoll::Wait(FETCH_RETRY_SLEEP_DELAY),
        Some(NetworkState::OPEN(open)) => NetworkStatePoll::Open(open),
        Some(NetworkState::ERRORED(why)) => NetworkStatePoll::Failed(why),
    }
}

/// The map that the first `n` entries make, a later entry for a provider replacing an
/// earlier one.
pub open spec fn states_of(entries: Seq<(String, NetworkState)>, n: int) -> Map<
    Seq<char>,
    NetworkState,
>
    decreases n,
{
    if n <= 0 {
        Map::empty()
    } else {
        states_of(entries, n - 1).insert(entries[n - 1].0@, entries[n - 1].1)
    }
}

/// The last entry for a provider decides what the map holds for it.
proof fn lemma_last_entry_decides(
    entries: Seq<(String, NetworkState)>,
    key: Seq<char>,
    i: int,
    n: int,
)
    requires
        0 <= i < n <= entries.len(),
        entries[i].0@ == key,
        forall|j: int| i < j < n ==> (#[trigger] entries[j]).0@ != key,
    ensures
        states_of(entries, n).contains_key(key),
        states_of(entries, n)[key] == entries[i].1,
    decreases n,
{
    if n > i + 1 {
        lemma_last_entry_decides(entries, key, i, n - 1);
    }
}

/// A provider without an entry is not in the map.
proof fn lemma_no_entry(entries: Seq<(String, NetworkState)>, key: Seq<char>, n: int)
    requires
        0 <= n <= entries.len(),
        forall|j: int| 0 <= j < n ==> (#[trigger] entries[j]).0@ != key,
    ensures
        !states_of(entries, n).contains_key(key),
    decreases n,
{
    if n > 0 {
        lemma_no_entry(entries, key, n - 1);
    }
}

/// Entries beyond the first `n` do not change the map of the first `n`.
proof fn lemma_states_prefix(
    entries: Seq<(String, NetworkState)>,
    other: Seq<(String, NetworkState)>,
    n: int,
)
    requires
        0 <= n <= entries.len(),
        n <= other.len(),
        forall|j: int| 0 <= j < n ==> entries[j] == other[j],
    ensures
        states_of(entries, n) == states_of(other, n),
    decreases n,
{
    if n > 0 {
        lemma_states_prefix(entries, other, n - 1);
    }
}

/// Replacing the last entry of a provider replaces what the map holds for it.
proof fn lemma_replace_last(
    entries: Seq<(String, NetworkState)>,
    key: String,
    state: NetworkState,
    i: int,
    n: int,
)
    requires
        0 <= i < n <= entries.len(),
        entries[i].0@ == key@,
        forall|j: int| i < j < n ==> (#[trigger] entries[j]).0@ != key@,
    ensures
        states_of(entries.update(i, (key, state)), n) == states_of(entries, n).insert(
            key@,
            state,
        ),
    decreases n,
{
    let replaced = entries.update(i, (key, state));
    if n == i + 1 {
        lemma_states_prefix(entries, replaced, i);
        assert(states_of(replaced, n) =~= states_of(entries, n).insert(key@, state));
    } else {
        lemma_replace_last(entries, key, state, i, n - 1);
        assert(states_of(replaced, n) =~= states_of(entries, n).insert(key@, state));
    }
}

/// The registry of tunnels: for every provider, by its base URL, the state of its tunnel;
/// and the flag that turns on verbose logging.
///
/// The states are kept as a vector of pairs in which the last pair for a provider
/// decides, since vstd's model of a hash map holds for keys whose hashing it knows, which
/// are numbers and not texts.
pub struct InMemoryCache {
    states: Vec<(String, NetworkState)>,
    dev_flag: bool,
}

impl View for InMemoryCache {
    type V = Map<Seq<char>, NetworkState>;

    closed spec fn view(&self) -> Map<Seq<char>, NetworkState> {
        states_of(self.states@, self.states@.len() as int)
    }
}

impl InMemoryCache {
    /// Whether verbose logging is on.
    pub closed spec fn dev(&self) -> bool {
        self.dev_flag
    }

    /// A registry without tunnels, with verbose logging off.
    pub fn new() -> (cache: InMemoryCache)
        ensures
            cache@ == Map::<Seq<char>, NetworkState>::empty(),
            !cache.dev(),
    {
        InMemoryCache { states: Vec::new(), dev_flag: false }
    }

    /// The place of the last entry for a provider, if there is one.
    fn find(&self, key: &String) -> (place: Option<usize>)
        ensures
            match place {
                Some(i) => i < self.states@.len() && self.states@[i as int].0@ == key@
                    && self@.contains_key(key@) && self@[key@] == self.states@[i as int].1
                    && forall|j: int|
                    i < j < self.states@.len() ==> (#[trigger] self.states@[j]).0@ != key@,
                None => !self@.contains_key(key@),
            },
    {
        let mut i: usize = self.states.len();
        while i > 0
            invariant
                i <= self.states@.len(),
                forall|j: int| i <= j < self.states@.len() ==> (#[trigger] self.states@[j]).0@ != key@,
            decreases i,
        {
            i = i - 1;
            if self.states[i].0 == *key {
                proof {
                    lemma_last_entry_decides(
                        self.states@,
                        key@,
                        i as int,
                        self.states@.len() as int,
                    );
                }
                return Some(i);
            }
        }
        proof {
            lemma_no_entry(self.states@, key@, self.states@.len() as int);
        }
        None
    }

    /// Writes the state of a provider's tunnel over whatever the registry held for it.
    fn put(&mut self, key: String, state: NetworkState)
        ensures
            final(self)@ == old(self)@.insert(key@, state),
            final(self).dev() == old(self).dev(),
    {
        match self.find(&key) {
            Some(i) => {
                proof {
                    lemma_replace_last(
                        self.states@,
                        key,
                        state,
                        i as int,
                        self.states@.len() as int,
                    );
                }
                self.states.set(i, (key, state));
            },
            None => {
                let ghost before = self.states@;
                self.states.push((key, state));
                proof {
                    lemma_states_prefix(before, self.states@, before.len() as int);
                }
            },
        }
    }

    /// A copy of what the registry holds for a provider.
    pub fn get(&self, provider_url: &str) -> (entry: Option<NetworkState>)
        ensures
            entry == (if self@.contains_key(provider_url@) {
                Some(self@[provider_url@])
            } else {
                None
            }),
    {
        let key = provider_url.to_owned();
        match self.find(&key) {
            Some(i) => Some(self.states[i].1.clone()),
            None => None,
        }
    }

    /// One look at a provider's tunnel for a caller who waits for it: a copy of the tunnel
    /// where it is open, the time to wait where it is connecting, the stored error where
    /// it failed, and `NotInitialized` where the provider has no tunnel.
    pub fn get_network_state(&self, provider_url: &str) -> (poll: NetworkStatePoll)
        ensures
            poll == poll_of(
                if self@.contains_key(provider_url@) {
                    Some(self@[provider_url@])
                } else {
                    None
                },
            ),
    {
        match self.get(provider_url) {
            None => NetworkStatePoll::Failed(L8Error::NotInitialized),
            Some(NetworkState::CONNECTING) => NetworkStatePoll::Wait(FETCH_RETRY_SLEEP_DELAY),
            Some(NetworkState::OPEN(open)) => NetworkStatePoll::Open(open),
            Some(NetworkState::ERRORED(why)) => NetworkStatePoll::Failed(why),
        }
    }

    /// Marks a provider's tunnel as being set up, over whatever the registry held for it.
    pub fn set_connecting_network_state(&mut self, provider_url: &str)
        ensures
            final(self)@ == old(self)@.insert(provider_url@, NetworkState::CONNECTING),
            final(self).dev() == old(self).dev(),
    {
        self.put(provider_url.to_owned(), NetworkState::CONNECTING);
    }

    /// Marks a provider's tunnel as open.
    pub fn set_open_network_state(&mut self, provider_url: &str, state: NetworkStateOpen)
        ensures
            final(self)@ == old(self)@.insert(provider_url@, NetworkState::OPEN(state)),
            final(self).dev() == old(self).dev(),
    {
        self.put(provider_url.to_owned(), NetworkState::OPEN(state));
    }

    /// Marks a provider's tunnel as failed, with the reason.
    pub fn set_errored_network_state(&mut self, provider_url: &str, err: L8Error)
        ensures
            final(self)@ == old(self)@.insert(provider_url@, NetworkState::ERRORED(err)),
            final(self).dev() == old(self).dev(),
    {
        self.put(provider_url.to_owned(), NetworkState::ERRORED(err));
    }

    /// Turns verbose logging on or off.
    pub fn set_dev_flag(&mut self, flag: bool)
        ensures
            final(self).dev() == flag,
            final(self)@ == old(self)@,
    {
        self.dev_flag = flag;
    }

    /// Whether verbose logging is on.
    pub fn get_dev_flag(&self) -> (flag: bool)
        ensures
            flag == self.dev(),
    {
        self.dev_flag
    }
}

/// One write to the registry for a provider.
pub enum RegistryWrite {
    /// `set_connecting_network_state`.
    Connecting,
    /// `set_open_network_state`.
    Open(NetworkStateOpen),
    /// `set_errored_network_state`.
    Errored(L8Error),
}

/// The state that a write leaves for the provider.
pub open spec fn written(write: RegistryWrite) -> NetworkState {
    match write {
        RegistryWrite::Connecting => NetworkState::CONNECTING,
        RegistryWrite::Open(open) => NetworkState::OPEN(open),
        RegistryWrite::Errored(why) => NetworkState::ERRORED(why),
    }
}

/// The registry after the first `n` writes for a provider.
pub open spec fn after_writes(
    states: Map<Seq<char>, NetworkState>,
    provider_url: Seq<char>,
    writes: Seq<RegistryWrite>,
    n: int,
) -> Map<Seq<char>, NetworkState>
    decreases n,
{
    if n <= 0 {
        states
    } else {
        after_writes(states, provider_url, writes, n - 1).insert(
            provider_url,
            written(writes[n - 1]),
        )
    }
}

/// Every write that ends a setup follows directly on the write that began it.
pub open spec fn setups_are_begun(writes: Seq<RegistryWrite>) -> bool {
    forall|i: int|
        0 <= i < writes.len() && !(#[trigger] writes[i] is Connecting) ==> i > 0 && writes[i
            - 1] is Connecting
}

/// The states that a provider goes through never skip the connecting state, as long as
/// every setup that is ended was begun: what the registry holds for the provider after
/// each write is what that write names, whatever it held before; so the provider is
/// connecting first, and an open or failed tunnel always follows directly on a connecting
/// one. Other providers are not touched.
pub proof fn lemma_states_alternate(
    states: Map<Seq<char>, NetworkState>,
    provider_url: Seq<char>,
    writes: Seq<RegistryWrite>,
    n: int,
)
    requires
        setups_are_begun(writes),
        0 < n <= writes.len(),
    ensures
        after_writes(states, provider_url, writes, n).contains_key(provider_url),
        after_writes(states, provider_url, writes, n)[provider_url] == written(writes[n - 1]),
        after_writes(states, provider_url, writes, 1)[provider_url] is CONNECTING,
        !(after_writes(states, provider_url, writes, n)[provider_url] is CONNECTING) ==> n > 1
            && after_writes(states, provider_url, writes, n - 1)[provider_url] is CONNECTING,
        forall|other: Seq<char>|
            other != provider_url ==> (#[trigger] after_writes(
                states,
                provider_url,
                writes,
                n,
            ).contains_key(other)) == states.contains_key(other) && (states.contains_key(other)
                ==> after_writes(states, provider_url, writes, n)[other] == states[other]),
    decreases n,
{
    assert(writes[0] is Connecting);
    if n > 1 {
        lemma_states_alternate(states, provider_url, writes, n - 1);
    }
    let now = after_writes(states, provider_url, writes, n);
    assert forall|other: Seq<char>| other != provider_url implies (#[trigger] now.contains_key(
        other,
    )) == states.contains_key(other) && (states.contains_key(other) ==> now[other]
        == states[other]) by {
        lemma_writes_leave_others(states, provider_url, writes, n, other);
    }
}

/// Writes for one provider leave every other provider's state as it was.
proof fn lemma_writes_leave_others(
    states: Map<Seq<char>, NetworkState>,
    provider_url: Seq<char>,
    writes: Seq<RegistryWrite>,
    n: int,
    other: Seq<char>,
)
    requires
        other != provider_url,
    ensures
        after_writes(states, provider_url, writes, n).contains_key(other) == states.contains_key(
            other,
        ),
        states.contains_key(other) ==> after_writes(states, provider_url, writes, n)[other]
            == states[other],
    decreases n,
{
    if n > 0 {
        lemma_writes_leave_others(states, provider_url, writes, n - 1, other);
    }
}

/// Marking a provider as connecting does not reach a caller who holds a copy of its open
/// tunnel: the copy stays what it was, a later look sees the new state, and the other
/// providers keep theirs.
pub proof fn lemma_snapshot_outlives_restart(
    states: Map<Seq<char>, NetworkState>,
    provider_url: Seq<char>,
    snapshot: NetworkStateOpen,
)
    requires
        states.contains_key(provider_url),
        states[provider_url] == NetworkState::OPEN(snapshot),
    ensures
        poll_of(Some(states[provider_url])) == NetworkStatePoll::Open(snapshot),
        poll_of(Some(states.insert(provider_url, NetworkState::CONNECTING)[provider_url]))
            == NetworkStatePoll::Wait(FETCH_RETRY_SLEEP_DELAY),
        forall|other: Seq<char>|
            other != provider_url && states.contains_key(other) ==> states.insert(
                provider_url,
                NetworkState::CONNECTING,
            )[other] == states[other],
{
}

} // verus!
