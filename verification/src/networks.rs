//! Docker networks: the summary record, the store keyed by network id, and
//! how a path segment resolves to a stored network.
use vstd::prelude::*;
use crate::containers;
use crate::error::{DockerApiError, is_bad_request};
use crate::host;
use crate::text;

verus! {

/// A Docker network as the API lists it.
#[derive(Clone, Debug)]
pub struct NetworkSummary {
    pub id: String,
    pub name: String,
    pub driver: String,
    pub scope: String,
}

/// Networks keyed by id, each key held once, in insertion order.
pub struct NetworkStore {
    entries: Vec<(String, NetworkSummary)>,
}

impl NetworkStore {
    /// The stored (key, network) pairs.
    pub closed spec fn pairs(self) -> Seq<(String, NetworkSummary)> {
        self.entries@
    }

    /// No key occurs twice.
    pub open spec fn wf(self) -> bool {
        forall|i: int, j: int|
            0 <= i < self.pairs().len() && 0 <= j < self.pairs().len() && i != j ==> (
            #[trigger] self.pairs()[i]).0@ != (#[trigger] self.pairs()[j]).0@
    }

    /// Whether `k` is a key of the store.
    pub open spec fn has_key(self, k: Seq<char>) -> bool {
        exists|i: int| 0 <= i < self.pairs().len() && (#[trigger] self.pairs()[i]).0@ == k
    }

    /// Whether key `k` holds network `v`.
    pub open spec fn maps(self, k: Seq<char>, v: NetworkSummary) -> bool {
        exists|i: int|
            0 <= i < self.pairs().len() && (#[trigger] self.pairs()[i]).0@ == k && self.pairs()[i].1
                == v
    }

    /// An empty store.
    pub fn new() -> (r: Self)
        ensures
            r.wf(),
            r.pairs().len() == 0,
    {
        NetworkStore { entries: Vec::new() }
    }

    fn index_of_key(&self, k: &str) -> (r: Option<usize>)
        ensures
            r matches Some(i) ==> i < self.pairs().len() && self.pairs()[i as int].0@ == k@,
            r is None ==> !self.has_key(k@),
    {
        let mut i: usize = 0;
        while i < self.entries.len()
            invariant
                i <= self.entries@.len(),
                forall|j: int| 0 <= j < i ==> (#[trigger] self.entries@[j]).0@ != k@,
            decreases self.entries@.len() - i,
        {
            if text::str_eq(self.entries[i].0.as_str(), k) {
                return Some(i);
            }
            i += 1;
        }
        None
    }

    /// Stores `v` under key `k`, replacing what `k` held before.
    pub fn insert(&mut self, k: String, v: NetworkSummary)
        requires
            old(self).wf(),
        ensures
            final(self).wf(),
            final(self).maps(k@, v),
            forall|key: Seq<char>| key != k@ ==> (final(self).has_key(key) == old(self).has_key(key)),
            forall|key: Seq<char>, w: NetworkSummary|
                key != k@ ==> (final(self).maps(key, w) == old(self).maps(key, w)),
    {
        match self.index_of_key(k.as_str()) {
            Some(i) => {
                let ghost kk = k@;
                self.entries.set(i, (k, v));
                assert(self.pairs()[i as int].0@ == kk);
                assert(forall|j: int|
                    0 <= j < self.pairs().len() ==> (#[trigger] self.pairs()[j]).0@ == old(
                        self,
                    ).pairs()[j].0@);
                assert forall|key: Seq<char>| key != kk implies (self.has_key(key) == old(
                    self,
                ).has_key(key)) by {
                    if self.has_key(key) {
                        let j = choose|j: int|
                            0 <= j < self.pairs().len() && (#[trigger] self.pairs()[j]).0@ == key;
                        assert(old(self).pairs()[j].0@ == key);
                    }
                    if old(self).has_key(key) {
                        let j = choose|j: int|
                            0 <= j < old(self).pairs().len() && (#[trigger] old(self).pairs()[j]).0@
                                == key;
                        assert(self.pairs()[j].0@ == key);
                    }
                }
                assert forall|key: Seq<char>, w: NetworkSummary| key != kk implies (self.maps(key, w)
                    == old(self).maps(key, w)) by {
                    if self.maps(key, w) {
                        let j = choose|j: int|
                            0 <= j < self.pairs().len() && (#[trigger] self.pairs()[j]).0@ == key
                                && self.pairs()[j].1 == w;
                        assert(old(self).pairs()[j] == self.pairs()[j]);
                    }
                    if old(self).maps(key, w) {
                        let j = choose|j: int|
                            0 <= j < old(self).pairs().len() && (#[trigger] old(self).pairs()[j]).0@
                                == key && old(self).pairs()[j].1 == w;
                        assert(old(self).pairs()[j] == self.pairs()[j]);
                    }
                }
            },
            None => {
                let ghost kk = k@;
                self.entries.push((k, v));
                let ghost n = self.pairs().len() - 1;
                assert(self.pairs()[n].0@ == kk);
                assert forall|a: int, b: int|
                    0 <= a < self.pairs().len() && 0 <= b < self.pairs().len() && a != b implies (
                    #[trigger] self.pairs()[a]).0@ != (#[trigger] self.pairs()[b]).0@ by {
                    if a == n {
                        assert(old(self).pairs()[b] == self.pairs()[b]);
                    } else if b == n {
                        assert(old(self).pairs()[a] == self.pairs()[a]);
                    } else {
                        assert(old(self).pairs()[a] == self.pairs()[a]);
                        assert(old(self).pairs()[b] == self.pairs()[b]);
                    }
                }
                assert forall|key: Seq<char>| key != kk implies (self.has_key(key) == old(
                    self,
                ).has_key(key)) by {
                    if self.has_key(key) {
                        let j = choose|j: int|
                            0 <= j < self.pairs().len() && (#[trigger] self.pairs()[j]).0@ == key;
                        assert(old(self).pairs()[j].0@ == key);
                    }
                    if old(self).has_key(key) {
                        let j = choose|j: int|
                            0 <= j < old(self).pairs().len() && (#[trigger] old(self).pairs()[j]).0@
                                == key;
                        assert(self.pairs()[j].0@ == key);
                    }
                }
                assert forall|key: Seq<char>, w: NetworkSummary| key != kk implies (self.maps(key, w)
                    == old(self).maps(key, w)) by {
                    if self.maps(key, w) {
                        let j = choose|j: int|
                            0 <= j < self.pairs().len() && (#[trigger] self.pairs()[j]).0@ == key
                                && self.pairs()[j].1 == w;
                        assert(old(self).pairs()[j] == self.pairs()[j]);
                    }
                    if old(self).maps(key, w) {
                        let j = choose|j: int|
                            0 <= j < old(self).pairs().len() && (#[trigger] old(self).pairs()[j]).0@
                                == key && old(self).pairs()[j].1 == w;
                        assert(old(self).pairs()[j] == self.pairs()[j]);
                    }
                }
            },
        }
    }

    /// The network stored under key `k`.
    pub fn get(&self, k: &str) -> (r: Option<&NetworkSummary>)
        requires
            self.wf(),
        ensures
            r is None <==> !self.has_key(k@),
            r matches Some(v) ==> self.maps(k@, *v),
    {
        match self.index_of_key(k) {
            Some(i) => Some(&self.entries[i].1),
            None => None,
        }
    }

    /// Removes key `k`, returning what it held.
    pub fn remove(&mut self, k: &str) -> (r: Option<NetworkSummary>)
        requires
            old(self).wf(),
        ensures
            final(self).wf(),
            !final(self).has_key(k@),
            r is None <==> !old(self).has_key(k@),
            r matches Some(v) ==> old(self).maps(k@, v),
            forall|key: Seq<char>| key != k@ ==> (final(self).has_key(key) == old(self).has_key(key)),
            forall|key: Seq<char>, w: NetworkSummary|
                key != k@ ==> (final(self).maps(key, w) == old(self).maps(key, w)),
    {
        match self.index_of_key(k) {
            Some(i) => {
                let ghost before = self.pairs();
                let (_, v) = self.entries.remove(i);
                assert(forall|j: int|
                    0 <= j < self.pairs().len() ==> self.pairs()[j] == if j < i {
                        before[j]
                    } else {
                        before[j + 1]
                    });
                assert forall|key: Seq<char>| key != k@ implies (self.has_key(key) == old(
                    self,
                ).has_key(key)) by {
                    if self.has_key(key) {
                        let j = choose|j: int|
                            0 <= j < self.pairs().len() && (#[trigger] self.pairs()[j]).0@ == key;
                        if j < i {
                            assert(before[j].0@ == key);
                        } else {
                            assert(before[j + 1].0@ == key);
                        }
                    }
                    if old(self).has_key(key) {
                        let j = choose|j: int|
                            0 <= j < before.len() && (#[trigger] before[j]).0@ == key;
                        if j < i {
                            assert(self.pairs()[j].0@ == key);
                        } else {
                            assert(j != i);
                            assert(self.pairs()[j - 1].0@ == key);
                        }
                    }
                }
                assert forall|key: Seq<char>, w: NetworkSummary| key != k@ implies (self.maps(key, w)
                    == old(self).maps(key, w)) by {
                    if self.maps(key, w) {
                        let j = choose|j: int|
                            0 <= j < self.pairs().len() && (#[trigger] self.pairs()[j]).0@ == key
                                && self.pairs()[j].1 == w;
                        if j < i {
                            assert(before[j] == self.pairs()[j]);
                        } else {
                            assert(before[j + 1] == self.pairs()[j]);
                        }
                    }
                    if old(self).maps(key, w) {
                        let j = choose|j: int|
                            0 <= j < before.len() && (#[trigger] before[j]).0@ == key && before[j].1
                                == w;
                        if j < i {
                            assert(self.pairs()[j] == before[j]);
                        } else {
                            assert(j != i);
                            assert(self.pairs()[j - 1] == before[j]);
                        }
                    }
                }
                assert(!self.has_key(k@)) by {
                    if self.has_key(k@) {
                        let j = choose|j: int|
                            0 <= j < self.pairs().len() && (#[trigger] self.pairs()[j]).0@ == k@;
                        if j < i {
                            assert(before[j].0@ == k@);
                        } else {
                            assert(before[j + 1].0@ == k@);
                        }
                    }
                }
                Some(v)
            },
            None => None,
        }
    }

    /// The stored (key, network) pairs, in insertion order.
    pub fn entries(&self) -> (r: &Vec<(String, NetworkSummary)>)
        ensures
            r@ == self.pairs(),
    {
        &self.entries
    }

    /// Whether some stored network is named `name`.
    pub open spec fn has_name(self, name: Seq<char>) -> bool {
        exists|i: int| 0 <= i < self.pairs().len() && (#[trigger] self.pairs()[i]).1.name@ == name
    }

    /// Resolves a path segment to a store key: the segment itself when it is
    /// a key, else the key of a network with that name.
    pub fn resolve(&self, id_or_name: &str) -> (r: Option<String>)
        requires
            self.wf(),
        ensures
            self.has_key(id_or_name@) ==> (r matches Some(k) && k@ == id_or_name@),
            !self.has_key(id_or_name@) && self.has_name(id_or_name@) ==> (r matches Some(k)
                && exists|i: int|
                0 <= i < self.pairs().len() && (#[trigger] self.pairs()[i]).0@ == k@
                    && self.pairs()[i].1.name@ == id_or_name@),
            !self.has_key(id_or_name@) && !self.has_name(id_or_name@) ==> r is None,
    {
        if self.index_of_key(id_or_name).is_some() {
            return Some(text::string_of(id_or_name));
        }
        let mut i: usize = 0;
        while i < self.entries.len()
            invariant
                i <= self.entries@.len(),
                !self.has_key(id_or_name@),
                forall|j: int| 0 <= j < i ==> (#[trigger] self.entries@[j]).1.name@ != id_or_name@,
            decreases self.entries@.len() - i,
        {
            if text::str_eq(self.entries[i].1.name.as_str(), id_or_name) {
                let k = text::string_of(self.entries[i].0.as_str());
                assert(self.pairs()[i as int].0@ == k@);
                return Some(k);
            }
            i += 1;
        }
        None
    }
}

/// A key holds one network at a time, so a read under a key finds exactly
/// what the last write under it stored.
pub proof fn lemma_key_holds_one_network(
    store: NetworkStore,
    k: Seq<char>,
    v1: NetworkSummary,
    v2: NetworkSummary,
)
    requires
        store.wf(),
        store.maps(k, v1),
        store.maps(k, v2),
    ensures
        v1 == v2,
{
    let i = choose|i: int|
        0 <= i < store.pairs().len() && (#[trigger] store.pairs()[i]).0@ == k && store.pairs()[i].1
            == v1;
    let j = choose|j: int|
        0 <= j < store.pairs().len() && (#[trigger] store.pairs()[j]).0@ == k && store.pairs()[j].1
            == v2;
    if i != j {
        assert(store.pairs()[i].0@ != store.pairs()[j].0@);
    }
}

/// Resolves a network path segment to a store key: exact id first, then a
/// network name.
pub fn resolve_network_id(networks: &NetworkStore, id_or_name: &str) -> (r: Option<String>)
    requires
        networks.wf(),
    ensures
        networks.has_key(id_or_name@) ==> (r matches Some(k) && k@ == id_or_name@),
        !networks.has_key(id_or_name@) && networks.has_name(id_or_name@) ==> (r matches Some(k)
            && exists|i: int|
            0 <= i < networks.pairs().len() && (#[trigger] networks.pairs()[i]).0@ == k@
                && networks.pairs()[i].1.name@ == id_or_name@),
        !networks.has_key(id_or_name@) && !networks.has_name(id_or_name@) ==> r is None,
{
    networks.resolve(id_or_name)
}

/// The networks every daemon starts with: the local `bridge`.
pub fn default_networks() -> (r: NetworkStore)
    ensures
        r.wf(),
        r.pairs().len() == 1,
        r.pairs()[0].0@ == "bridge"@,
        r.pairs()[0].1.id@ == "bridge"@ && r.pairs()[0].1.name@ == "bridge"@
            && r.pairs()[0].1.driver@ == "bridge"@ && r.pairs()[0].1.scope@ == "local"@,
{
    let bridge = NetworkSummary {
        id: text::string_of("bridge"),
        name: text::string_of("bridge"),
        driver: text::string_of("bridge"),
        scope: text::string_of("local"),
    };
    let mut entries: Vec<(String, NetworkSummary)> = Vec::new();
    entries.push((text::string_of("bridge"), bridge));
    NetworkStore { entries }
}

/// Validates a network name: not blank, and free of path separators and
/// shell metacharacters.
pub fn validate_network_name(name: &str) -> (r: Result<(), DockerApiError>)
    ensures
        text::trim(name@).len() == 0 ==> (r matches Err(e) && is_bad_request(
            e,
            "network name cannot be empty"@,
        )),
        text::trim(name@).len() != 0 && containers::has_char_of(name@, containers::Forbidden::ShellMetaOrSeparator) ==> (r matches Err(e)
            && is_bad_request(e, "network name contains invalid characters"@)),
        text::trim(name@).len() != 0 && !containers::has_char_of(name@, containers::Forbidden::ShellMetaOrSeparator) ==> r is Ok,
{
    if text::trimmed_chars(name).len() == 0 {
        return Err(DockerApiError::BadRequest(text::string_of("network name cannot be empty")));
    }
    if containers::contains_char_of(name, containers::Forbidden::ShellMetaOrSeparator) {
        return Err(
            DockerApiError::BadRequest(text::string_of("network name contains invalid characters")),
        );
    }
    Ok(())
}

/// The body of `POST /networks/create`.
#[derive(Clone, Debug)]
pub struct NetworkCreateBody {
    pub name: String,
    pub driver: Option<String>,
}

/// The body of `POST /networks/<id>/connect` and `/disconnect`.
#[derive(Clone, Debug)]
pub struct NetworkConnectBody {
    pub container: Option<String>,
}

/// Plans `POST /networks/create` at time `nanos`: the name is checked; the id
/// is the name, `-` and the time in hexadecimal; the driver defaults to
/// `bridge` and the scope is `local`.
pub fn plan_network_create(body: &NetworkCreateBody, nanos: u128) -> (r: Result<
    NetworkSummary,
    DockerApiError,
>)
    ensures
        text::trim(body.name@).len() == 0 ==> (r matches Err(e) && is_bad_request(
            e,
            "network name cannot be empty"@,
        )),
        text::trim(body.name@).len() != 0 && containers::has_char_of(
            body.name@,
            containers::Forbidden::ShellMetaOrSeparator,
        ) ==> (r matches Err(e) && is_bad_request(e, "network name contains invalid characters"@)),
        text::trim(body.name@).len() != 0 && !containers::has_char_of(
            body.name@,
            containers::Forbidden::ShellMetaOrSeparator,
        ) ==> (r matches Ok(n) && n.id@ == body.name@ + "-"@ + text::hex_text(nanos as nat)
            && n.name@ == body.name@ && n.driver@ == match body.driver {
            Some(d) => d@,
            None => "bridge"@,
        } && n.scope@ == "local"@),
{
    match validate_network_name(body.name.as_str()) {
        Ok(()) => {},
        Err(e) => return Err(e),
    }
    let mut id = text::concat2(body.name.as_str(), "-");
    text::push_hex(&mut id, nanos);
    let driver = match &body.driver {
        Some(d) => d.clone(),
        None => text::string_of("bridge"),
    };
    Ok(NetworkSummary { id, name: body.name.clone(), driver, scope: text::string_of("local") })
}

/// Plans `POST /networks/create` with the current time.
pub fn plan_network_create_now(body: &NetworkCreateBody) -> (r: Result<
    NetworkSummary,
    DockerApiError,
>)
    ensures
        text::trim(body.name@).len() == 0 || containers::has_char_of(
            body.name@,
            containers::Forbidden::ShellMetaOrSeparator,
        ) ==> (r matches Err(e) && e is BadRequest),
        r matches Ok(n) ==> exists|nanos: u128|
            n.id@ == body.name@ + "-"@ + text::hex_text(nanos as nat),
{
    let nanos = host::now_nanos();
    plan_network_create(body, nanos)
}

/// Checks the network a connect or disconnect names: a valid name that
/// resolves to a stored network, whose key is returned.
pub fn connect_target(networks: &NetworkStore, id: &str) -> (r: Result<String, DockerApiError>)
    requires
        networks.wf(),
    ensures
        text::trim(id@).len() == 0 || containers::has_char_of(
            id@,
            containers::Forbidden::ShellMetaOrSeparator,
        ) ==> (r matches Err(e) && e is BadRequest),
        !(text::trim(id@).len() == 0 || containers::has_char_of(
            id@,
            containers::Forbidden::ShellMetaOrSeparator,
        )) ==> if networks.has_key(id@) || networks.has_name(id@) {
            r is Ok
        } else {
            r matches Err(DockerApiError::NotFound(m)) && m@ == "network "@ + id@ + " not found"@
        },
        r matches Ok(k) ==> networks.has_key(k@),
{
    match validate_network_name(id) {
        Ok(()) => {},
        Err(e) => return Err(e),
    }
    match networks.resolve(id) {
        Some(k) => {
            proof {
                if !networks.has_key(id@) {
                    let i = choose|i: int|
                        0 <= i < networks.pairs().len() && (#[trigger] networks.pairs()[i]).0@ == k@
                            && networks.pairs()[i].1.name@ == id@;
                    assert(networks.has_key(k@));
                }
            }
            Ok(k)
        },
        None => Err(DockerApiError::NotFound(text::concat3("network ", id, " not found"))),
    }
}

/// The error when a connect names a container that does not exist.
pub fn container_not_found(container_id: &str) -> (r: DockerApiError)
    ensures
        r matches DockerApiError::NotFound(m) && m@ == "container "@ + container_id@ + " not found"@,
{
    DockerApiError::NotFound(text::concat3("container ", container_id, " not found"))
}

/// Removes the network that `id` names (by key, else by name); returns the
/// key removed, if any.
pub fn remove_network(networks: &mut NetworkStore, id: &str) -> (r: Option<String>)
    requires
        old(networks).wf(),
    ensures
        final(networks).wf(),
        (old(networks).has_key(id@) || old(networks).has_name(id@)) <==> r is Some,
        r matches Some(k) ==> old(networks).has_key(k@) && !final(networks).has_key(k@),
        r is None ==> final(networks).pairs() == old(networks).pairs(),
{
    match networks.resolve(id) {
        Some(k) => {
            proof {
                if !networks.has_key(id@) {
                    let i = choose|i: int|
                        0 <= i < networks.pairs().len() && (#[trigger] networks.pairs()[i]).0@ == k@
                            && networks.pairs()[i].1.name@ == id@;
                    assert(networks.has_key(k@));
                }
            }
            let _ = networks.remove(k.as_str());
            Some(k)
        },
        None => None,
    }
}

} // verus!
