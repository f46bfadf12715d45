//! The operation executor over a reference model of the backend
//! instances: routing, the GET/SET of the routed instance, and the
//! classification of its reply, end to end.
//!
//! One `InstanceModel` is the visible GET/SET behaviour of a single
//! backend instance: a map from keys to stored text values. `ShardedKv`
//! is the whole routed deployment — the ordered instances of the routing
//! table — and its `fetch` and `store` are the two operations the layer
//! exposes upward. The live transport's availability is an input to them:
//! a connection that cannot be acquired yields `BackendUnavailable`, just
//! as it does against the real store.

use crate::outcome::{classify_store_reply, outcome_is_success_with, Outcome, StoreFailure};
use crate::pool::ConnectionAcquirer;
use crate::router::{get_key_instance_index, lemma_route_in_range, spec_route};
use vstd::prelude::*;
use vstd::string::StringSliceAdditionalSpecFns;
use vstd::utf8::encode_utf8;

verus! {

/// The model of one backend instance: its history of accepted writes.
pub struct InstanceModel {
    entries: Vec<(String, String)>,
}

/// The key-value map a history of writes denotes: later writes win.
pub open spec fn kv_view(entries: Seq<(String, String)>) -> Map<Seq<char>, Seq<char>>
    decreases entries.len(),
{
    if entries.len() == 0 {
        Map::empty()
    } else {
        kv_view(entries.drop_last()).insert(entries.last().0@, entries.last().1@)
    }
}

impl View for InstanceModel {
    type V = Map<Seq<char>, Seq<char>>;

    closed spec fn view(&self) -> Map<Seq<char>, Seq<char>> {
        kv_view(self.entries@)
    }
}

/// Looking a key up ignores every entry whose key differs: the map of the
/// whole history agrees at `key` with the map of the prefix before the
/// last matching write.
proof fn lemma_kv_view_prefix(entries: Seq<(String, String)>, i: int, key: Seq<char>)
    requires
        0 <= i <= entries.len(),
        forall|j: int| i <= j < entries.len() ==> entries[j].0@ != key,
    ensures
        kv_view(entries).contains_key(key) == kv_view(entries.take(i)).contains_key(key),
        kv_view(entries).contains_key(key) ==> kv_view(entries)[key] == kv_view(entries.take(i))[key],
    decreases entries.len() - i,
{
    if i < entries.len() {
        lemma_kv_view_prefix(entries, i + 1, key);
        assert(entries.take(i + 1).drop_last() =~= entries.take(i));
        assert(entries.take(i + 1).last() == entries[i]);
    } else {
        assert(entries.take(i) =~= entries);
    }
}

impl InstanceModel {
    /// A fresh instance: nothing stored.
    pub fn new() -> (model: Self)
        ensures
            model@ == Map::<Seq<char>, Seq<char>>::empty(),
    {
        InstanceModel { entries: Vec::new() }
    }

    /// GET: the stored value for a present key. An absent key reads back
    /// as the backend's nil, which its client reports as a type mismatch
    /// under a string read — so the reply for an absent key is
    /// `WrongType`, never a plain failure.
    pub fn get(&self, key: &String) -> (reply: Result<String, StoreFailure>)
        ensures
            self@.contains_key(key@) ==> (reply matches Ok(v) && v@ == self@[key@]),
            !self@.contains_key(key@) ==> (reply matches Err(f) && f is WrongType),
    {
        let n = self.entries.len();
        let mut i = n;
        while i > 0
            invariant
                i <= n == self.entries@.len(),
                forall|j: int| i <= j < n ==> self.entries@[j].0@ != key@,
            decreases i,
        {
            i = i - 1;
            if self.entries[i].0 == *key {
                proof {
                    lemma_kv_view_prefix(self.entries@, i + 1, key@);
                    assert(self.entries@.take(i + 1).drop_last() =~= self.entries@.take(i as int));
                    assert(self.entries@.take(i + 1).last() == self.entries@[i as int]);
                }
                return Ok(self.entries[i].1.clone());
            }
        }
        proof {
            lemma_kv_view_prefix(self.entries@, 0, key@);
            assert(self.entries@.take(0).len() == 0);
        }
        Err(StoreFailure::WrongType)
    }

    /// SET: records the write and returns the store's acknowledgment.
    pub fn set(&mut self, key: &String, value: &String) -> (ack: String)
        ensures
            final(self)@ == old(self)@.insert(key@, value@),
            ack@ == "OK"@,
    {
        self.entries.push((key.clone(), value.clone()));
        proof {
            assert(self.entries@.drop_last() =~= old(self).entries@);
        }
        "OK".to_owned()
    }
}

/// The instance index a key routes to in a table of `table_size`
/// instances: the shard of the key's UTF-8 bytes.
pub open spec fn routed_index(table_size: int, key: Seq<char>) -> int {
    spec_route(encode_utf8(key), table_size)
}

/// Holds exactly when `outcome` is what a GET of `key` must return
/// against the routed instance of `maps`: the stored value when the key
/// is present, `NotFound` when it is absent.
pub open spec fn fetch_outcome_ok(
    maps: Seq<Map<Seq<char>, Seq<char>>>,
    key: Seq<char>,
    outcome: Outcome,
) -> bool {
    let m = maps[routed_index(maps.len() as int, key)];
    if m.contains_key(key) {
        outcome_is_success_with(outcome, m[key])
    } else {
        outcome is NotFound
    }
}

/// The routed deployment: the backend instances of the routing table, in
/// configured order, each modelled by its visible map.
pub struct ShardedKv {
    instances: Vec<InstanceModel>,
}

impl ShardedKv {
    /// The per-instance maps, in routing-table order.
    pub closed spec fn instance_maps(&self) -> Seq<Map<Seq<char>, Seq<char>>> {
        Seq::new(self.instances@.len() as nat, |i: int| self.instances@[i]@)
    }

    /// The routing table is never empty while serving.
    pub open spec fn wf(&self) -> bool {
        self.instance_maps().len() > 0
    }

    /// A fresh deployment of `instance_count` empty instances.
    pub fn new(instance_count: usize) -> (kv: Self)
        requires
            instance_count > 0,
        ensures
            kv.wf(),
            kv.instance_maps().len() == instance_count,
            forall|i: int|
                0 <= i < instance_count ==> kv.instance_maps()[i] == Map::<
                    Seq<char>,
                    Seq<char>,
                >::empty(),
    {
        let mut instances: Vec<InstanceModel> = Vec::new();
        let mut i: usize = 0;
        while i < instance_count
            invariant
                i <= instance_count,
                instances@.len() == i,
                forall|j: int|
                    0 <= j < i ==> instances@[j]@ == Map::<Seq<char>, Seq<char>>::empty(),
            decreases instance_count - i,
        {
            instances.push(InstanceModel::new());
            i = i + 1;
        }
        ShardedKv { instances }
    }

    /// GET: routes the key, acquires a session over the transport, reads
    /// the routed instance and classifies its reply. A transport that is
    /// down yields `BackendUnavailable` — a legitimate runtime failure,
    /// even for an instance that probed clean at startup.
    pub fn fetch(&self, key: &String, transport_up: bool) -> (outcome: Outcome)
        requires
            self.wf(),
        ensures
            !transport_up ==> outcome is BackendUnavailable,
            transport_up ==> fetch_outcome_ok(self.instance_maps(), key@, outcome),
    {
        if !transport_up {
            return Outcome::BackendUnavailable;
        }
        let index = get_key_instance_index(key.as_str(), self.instances.len());
        let reply = self.instances[index].get(key);
        classify_store_reply(reply)
    }

    /// SET: routes the key, writes the routed instance and returns the
    /// store's acknowledgment as the success value. Only the routed
    /// instance changes, and only at the written key.
    pub fn store(&mut self, key: &String, value: &String, transport_up: bool) -> (outcome: Outcome)
        requires
            old(self).wf(),
        ensures
            final(self).wf(),
            final(self).instance_maps().len() == old(self).instance_maps().len(),
            !transport_up ==> outcome is BackendUnavailable && final(self).instance_maps() == old(
                self,
            ).instance_maps(),
            transport_up ==> final(self).instance_maps() == old(self).instance_maps().update(
                routed_index(old(self).instance_maps().len() as int, key@),
                old(self).instance_maps()[routed_index(
                    old(self).instance_maps().len() as int,
                    key@,
                )].insert(key@, value@),
            ) && outcome_is_success_with(outcome, "OK"@),
    {
        if !transport_up {
            return Outcome::BackendUnavailable;
        }
        let index = get_key_instance_index(key.as_str(), self.instances.len());
        let mut instance = self.instances.remove(index);
        let ack = instance.set(key, value);
        self.instances.insert(index, instance);
        proof {
            assert(self.instances@ =~= old(self).instances@.update(
                index as int,
                self.instances@[index as int],
            ));
            assert(self.instance_maps() =~~= old(self).instance_maps().update(
                index as int,
                old(self).instance_maps()[index as int].insert(key@, value@),
            ));
        }
        Outcome::Success(ack)
    }
}

/// Whether the acquirer grants a handle in its current state: the
/// transport-backed strategies follow the transport, the pooled strategy
/// its free handles.
pub open spec fn lease_granted(acquirer: ConnectionAcquirer, transport_up: bool) -> bool {
    match acquirer {
        ConnectionAcquirer::Multiplexed => transport_up,
        ConnectionAcquirer::ClusterNative => transport_up,
        ConnectionAcquirer::Pooled(pool) => pool.spec_in_use() < pool.spec_capacity(),
    }
}

/// The acquirer after a whole operation: same strategy, and — pooled or
/// not — no handle kept. Scoped acquisition returns the handle on every
/// exit path.
pub open spec fn acquirer_restored(before: ConnectionAcquirer, after: ConnectionAcquirer) -> bool {
    match before {
        ConnectionAcquirer::Multiplexed => after is Multiplexed,
        ConnectionAcquirer::ClusterNative => after is ClusterNative,
        ConnectionAcquirer::Pooled(pool) => after matches ConnectionAcquirer::Pooled(p)
            && p.spec_capacity() == pool.spec_capacity() && p.spec_in_use() == pool.spec_in_use(),
    }
}

/// GET through the configured acquisition strategy: lease a handle, read
/// the routed instance, release the handle. The handle is released on
/// every exit path, and a refused lease is `BackendUnavailable`.
pub fn fetch_with_acquirer(
    kv: &ShardedKv,
    acquirer: &mut ConnectionAcquirer,
    key: &String,
    transport_up: bool,
) -> (outcome: Outcome)
    requires
        kv.wf(),
        old(acquirer).wf(),
    ensures
        final(acquirer).wf(),
        acquirer_restored(*old(acquirer), *final(acquirer)),
        !lease_granted(*old(acquirer), transport_up) ==> outcome is BackendUnavailable,
        lease_granted(*old(acquirer), transport_up) ==> fetch_outcome_ok(
            kv.instance_maps(),
            key@,
            outcome,
        ),
{
    let granted = acquirer.try_lease(transport_up);
    if !granted {
        return Outcome::BackendUnavailable;
    }
    let outcome = kv.fetch(key, true);
    acquirer.release();
    outcome
}

/// SET through the configured acquisition strategy, with the same scoped
/// acquire-and-release shape as the GET path.
pub fn store_with_acquirer(
    kv: &mut ShardedKv,
    acquirer: &mut ConnectionAcquirer,
    key: &String,
    value: &String,
    transport_up: bool,
) -> (outcome: Outcome)
    requires
        old(kv).wf(),
        old(acquirer).wf(),
    ensures
        final(kv).wf(),
        final(acquirer).wf(),
        acquirer_restored(*old(acquirer), *final(acquirer)),
        final(kv).instance_maps().len() == old(kv).instance_maps().len(),
        !lease_granted(*old(acquirer), transport_up) ==> outcome is BackendUnavailable
            && final(kv).instance_maps() == old(kv).instance_maps(),
        lease_granted(*old(acquirer), transport_up) ==> final(kv).instance_maps()
            == old(kv).instance_maps().update(
            routed_index(old(kv).instance_maps().len() as int, key@),
            old(kv).instance_maps()[routed_index(
                old(kv).instance_maps().len() as int,
                key@,
            )].insert(key@, value@),
        ) && outcome_is_success_with(outcome, "OK"@),
{
    let granted = acquirer.try_lease(transport_up);
    if !granted {
        return Outcome::BackendUnavailable;
    }
    let outcome = kv.store(key, value, true);
    acquirer.release();
    outcome
}

/// Law (read-your-writes): within one routing table, a SET followed
/// immediately by a GET of the same key routes to the same instance and
/// returns exactly the value just written.
pub fn store_then_fetch(kv: &mut ShardedKv, key: &String, value: &String) -> (outcome: Outcome)
    requires
        old(kv).wf(),
    ensures
        outcome_is_success_with(outcome, value@),
        final(kv).wf(),
        final(kv).instance_maps().len() == old(kv).instance_maps().len(),
        final(kv).instance_maps() == old(kv).instance_maps().update(
            routed_index(old(kv).instance_maps().len() as int, key@),
            old(kv).instance_maps()[routed_index(
                old(kv).instance_maps().len() as int,
                key@,
            )].insert(key@, value@),
        ),
{
    let _ack = kv.store(key, value, true);
    kv.fetch(key, true)
}

/// Law: a GET of a key that no instance holds — a key never written —
/// is `NotFound`, never `StoreError`.
pub proof fn lemma_unwritten_key_not_found(
    maps: Seq<Map<Seq<char>, Seq<char>>>,
    key: Seq<char>,
    outcome: Outcome,
)
    requires
        maps.len() > 0,
        forall|i: int| 0 <= i < maps.len() ==> !maps[i].contains_key(key),
        fetch_outcome_ok(maps, key, outcome),
    ensures
        outcome is NotFound,
{
    lemma_route_in_range(encode_utf8(key), maps.len() as int);
}

} // verus!
