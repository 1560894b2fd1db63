//! A verified in-memory provider: the reference model of the storage
//! lifecycle.
//!
//! The store holds containers of keyed items exactly as the provider would,
//! records every mutating call it performs, and runs each operation the way
//! the tool runs it against the real provider: fetch a snapshot, apply the
//! guards of [`crate::guard`], and mutate only when they pass. Its contracts
//! are stated over pure transition functions (`create_effect`,
//! `delete_bucket_effect`, ...) on a mathematical view of the store; the
//! lifecycle laws in [`crate::laws`] are proved over those same functions.

use crate::errors::StoreError;
use crate::guard;
use vstd::prelude::*;

verus! {

/// Mathematical view of one stored item: its key and its byte payload.
#[verifier::ext_equal]
pub ghost struct ItemModel {
    pub key: Seq<char>,
    pub data: Seq<u8>,
}

/// Mathematical view of one container: its name, the location constraint its
/// create call carried (none in the default region), and its items in store
/// order.
#[verifier::ext_equal]
pub ghost struct ContainerModel {
    pub name: Seq<char>,
    pub location_constraint: Option<Seq<char>>,
    pub items: Seq<ItemModel>,
}

/// One stored item.
pub struct Item {
    pub key: String,
    pub data: Vec<u8>,
}

impl DeepView for Item {
    type V = ItemModel;

    open spec fn deep_view(&self) -> ItemModel {
        ItemModel { key: self.key@, data: self.data@ }
    }
}

/// One container with its recorded create constraint and its items.
pub struct Container {
    pub name: String,
    pub location_constraint: Option<String>,
    pub items: Vec<Item>,
}

impl DeepView for Container {
    type V = ContainerModel;

    open spec fn deep_view(&self) -> ContainerModel {
        ContainerModel {
            name: self.name@,
            location_constraint: self.location_constraint.deep_view(),
            items: self.items.deep_view(),
        }
    }
}

/// How many mutating provider calls the store has performed, by kind.
/// A guard that refuses an operation leaves every count unchanged: that is
/// how a test observes that no underlying call was issued.
#[derive(Clone, Copy, Debug, PartialEq, Eq, Structural)]
pub struct CallLog {
    pub creates: u64,
    pub bucket_deletes: u64,
    pub puts: u64,
    pub object_deletes: u64,
}

/// Whether a container of this name is present.
pub open spec fn has_container(m: Seq<ContainerModel>, name: Seq<char>) -> bool {
    exists|i: int| 0 <= i < m.len() && m[i].name == name
}

/// The index of the container of this name (meaningful under
/// `has_container`; unique under `wf_store`).
pub open spec fn container_at(m: Seq<ContainerModel>, name: Seq<char>) -> int {
    choose|i: int| 0 <= i < m.len() && m[i].name == name
}

/// The container names in store order.
pub open spec fn container_names(m: Seq<ContainerModel>) -> Seq<Seq<char>> {
    Seq::new(m.len(), |i: int| m[i].name)
}

/// Whether an item of this key is present.
pub open spec fn has_item(items: Seq<ItemModel>, key: Seq<char>) -> bool {
    exists|i: int| 0 <= i < items.len() && items[i].key == key
}

/// The index of the item of this key (meaningful under `has_item`; unique
/// under `wf_store`).
pub open spec fn item_at(items: Seq<ItemModel>, key: Seq<char>) -> int {
    choose|i: int| 0 <= i < items.len() && items[i].key == key
}

/// The item keys in store order.
pub open spec fn item_keys(items: Seq<ItemModel>) -> Seq<Seq<char>> {
    Seq::new(items.len(), |i: int| items[i].key)
}

/// No two entries of the sequence are equal.
pub open spec fn distinct_seqs(s: Seq<Seq<char>>) -> bool {
    forall|i: int, j: int| 0 <= i < j < s.len() ==> s[i] != s[j]
}

/// Store validity: container names are unique, and so are the keys inside
/// each container — as the provider itself guarantees.
pub open spec fn wf_store(m: Seq<ContainerModel>) -> bool {
    &&& distinct_seqs(container_names(m))
    &&& forall|i: int| 0 <= i < m.len() ==> distinct_seqs(item_keys(#[trigger] m[i].items))
}

/// Effect of an explicit container create: refused when the name is taken,
/// otherwise the new, empty container is appended with the given constraint.
pub open spec fn create_effect(
    m: Seq<ContainerModel>,
    name: Seq<char>,
    constraint: Option<Seq<char>>,
) -> (Seq<ContainerModel>, Result<(), StoreError>) {
    if has_container(m, name) {
        (m, Err(StoreError::AlreadyExists))
    } else {
        (
            m.push(ContainerModel { name, location_constraint: constraint, items: Seq::empty() }),
            Ok(()),
        )
    }
}

/// Effect of a container delete: refused when the container is missing or
/// still holds items; only a verified-empty container is removed.
pub open spec fn delete_bucket_effect(m: Seq<ContainerModel>, name: Seq<char>) -> (
    Seq<ContainerModel>,
    Result<(), StoreError>,
) {
    if !has_container(m, name) {
        (m, Err(StoreError::NoSuchBucket))
    } else if m[container_at(m, name)].items.len() != 0 {
        (m, Err(StoreError::NotEmpty))
    } else {
        (m.remove(container_at(m, name)), Ok(()))
    }
}

/// Result of listing a container: its keys in store order, or a refusal when
/// the container is missing.
pub open spec fn list_result(m: Seq<ContainerModel>, name: Seq<char>) -> Result<
    Seq<Seq<char>>,
    StoreError,
> {
    if !has_container(m, name) {
        Err(StoreError::NoSuchBucket)
    } else {
        Ok(item_keys(m[container_at(m, name)].items))
    }
}

/// Effect of a put on a container's items: an existing key is overwritten in
/// place, a new key is appended.
pub open spec fn put_items_effect(items: Seq<ItemModel>, key: Seq<char>, data: Seq<u8>) -> Seq<
    ItemModel,
> {
    if has_item(items, key) {
        items.update(item_at(items, key), ItemModel { key, data })
    } else {
        items.push(ItemModel { key, data })
    }
}

/// Effect of an upload: the one auto-creating operation — a missing
/// container is created first (with the constraint of the configured
/// region), then the item is put. The flag reports whether a create
/// happened.
pub open spec fn upload_effect(
    m: Seq<ContainerModel>,
    name: Seq<char>,
    constraint: Option<Seq<char>>,
    key: Seq<char>,
    data: Seq<u8>,
) -> (Seq<ContainerModel>, bool) {
    let (m1, created) = if has_container(m, name) {
        (m, false)
    } else {
        (create_effect(m, name, constraint).0, true)
    };
    let i = container_at(m1, name);
    (
        m1.update(
            i,
            ContainerModel {
                name: m1[i].name,
                location_constraint: m1[i].location_constraint,
                items: put_items_effect(m1[i].items, key, data),
            },
        ),
        created,
    )
}

/// Effect of an item delete: refused when the container is missing or the
/// key is not among its enumerated contents; otherwise the item is removed.
pub open spec fn delete_object_effect(
    m: Seq<ContainerModel>,
    bucket: Seq<char>,
    key: Seq<char>,
) -> (Seq<ContainerModel>, Result<(), StoreError>) {
    if !has_container(m, bucket) {
        (m, Err(StoreError::NoSuchBucket))
    } else {
        let i = container_at(m, bucket);
        if !has_item(m[i].items, key) {
            (m, Err(StoreError::NoSuchKey))
        } else {
            (
                m.update(
                    i,
                    ContainerModel {
                        name: m[i].name,
                        location_constraint: m[i].location_constraint,
                        items: m[i].items.remove(item_at(m[i].items, key)),
                    },
                ),
                Ok(()),
            )
        }
    }
}

/// Result of a get: the item's payload and the local path it is written to,
/// or the refusal. A missing container surfaces as the provider's own
/// failure of the enumeration call; the guard itself checks only the key.
pub open spec fn get_result(m: Seq<ContainerModel>, bucket: Seq<char>, key: Seq<char>) -> Result<
    (Seq<u8>, Seq<char>),
    StoreError,
> {
    if !has_container(m, bucket) {
        Err(StoreError::NoSuchBucket)
    } else {
        let items = m[container_at(m, bucket)].items;
        if !has_item(items, key) {
            Err(StoreError::NoSuchKey)
        } else {
            Ok((items[item_at(items, key)].data, guard::download_path_spec(key)))
        }
    }
}

/// A membership witness fixes `container_at` under store validity.
pub proof fn lemma_container_at_is(m: Seq<ContainerModel>, name: Seq<char>, i: int)
    requires
        wf_store(m),
        0 <= i < m.len(),
        m[i].name == name,
    ensures
        has_container(m, name),
        container_at(m, name) == i,
{
    assert(has_container(m, name));
    let j = container_at(m, name);
    assert(0 <= j < m.len() && m[j].name == name);
    if i != j {
        assert(container_names(m)[i] == name);
        assert(container_names(m)[j] == name);
        assert(false);
    }
}

/// A membership witness fixes `item_at` when the keys are distinct.
pub proof fn lemma_item_at_is(items: Seq<ItemModel>, key: Seq<char>, i: int)
    requires
        distinct_seqs(item_keys(items)),
        0 <= i < items.len(),
        items[i].key == key,
    ensures
        has_item(items, key),
        item_at(items, key) == i,
{
    assert(has_item(items, key));
    let j = item_at(items, key);
    assert(0 <= j < items.len() && items[j].key == key);
    if i != j {
        assert(item_keys(items)[i] == key);
        assert(item_keys(items)[j] == key);
        assert(false);
    }
}

/// Name-list membership and container membership agree.
pub proof fn lemma_contains_names(m: Seq<ContainerModel>, name: Seq<char>)
    ensures
        guard::contains_name(container_names(m), name) <==> has_container(m, name),
{
    if has_container(m, name) {
        let i = container_at(m, name);
        assert(container_names(m)[i] == name);
    }
    if guard::contains_name(container_names(m), name) {
        let i = choose|i: int|
            0 <= i < container_names(m).len() && container_names(m)[i] == name;
        assert(m[i].name == name);
    }
}

/// Key-list membership and item membership agree.
pub proof fn lemma_contains_keys(items: Seq<ItemModel>, key: Seq<char>)
    ensures
        guard::contains_name(item_keys(items), key) <==> has_item(items, key),
{
    if has_item(items, key) {
        let i = item_at(items, key);
        assert(item_keys(items)[i] == key);
    }
    if guard::contains_name(item_keys(items), key) {
        let i = choose|i: int| 0 <= i < item_keys(items).len() && item_keys(items)[i] == key;
        assert(items[i].key == key);
    }
}

/// A create of an absent name preserves store validity.
pub proof fn lemma_create_preserves_wf(
    m: Seq<ContainerModel>,
    name: Seq<char>,
    constraint: Option<Seq<char>>,
)
    requires
        wf_store(m),
        !has_container(m, name),
    ensures
        wf_store(create_effect(m, name, constraint).0),
{
    let m2 = create_effect(m, name, constraint).0;
    assert forall|i: int, j: int|
        0 <= i < j < container_names(m2).len() implies container_names(m2)[i] != container_names(
        m2,
    )[j] by {
        if j == m.len() {
            assert(container_names(m2)[j] == name);
            assert(container_names(m2)[i] == m[i].name);
            if m[i].name == name {
                assert(has_container(m, name));
            }
        } else {
            assert(container_names(m)[i] == container_names(m2)[i]);
            assert(container_names(m)[j] == container_names(m2)[j]);
        }
    }
    assert forall|i: int| 0 <= i < m2.len() implies distinct_seqs(
        item_keys(#[trigger] m2[i].items),
    ) by {
        if i < m.len() {
            assert(m2[i].items == m[i].items);
        } else {
            assert(m2[i].items =~= Seq::<ItemModel>::empty());
        }
    }
}


/// Removing a container preserves store validity.
pub proof fn lemma_remove_preserves_wf(m: Seq<ContainerModel>, i: int)
    requires
        wf_store(m),
        0 <= i < m.len(),
    ensures
        wf_store(m.remove(i)),
{
    let m2 = m.remove(i);
    m.remove_ensures(i);
    assert forall|a: int, b: int|
        0 <= a < b < container_names(m2).len() implies container_names(m2)[a] != container_names(
        m2,
    )[b] by {
        let a0: int = if a < i { a } else { a + 1 };
        let b0: int = if b < i { b } else { b + 1 };
        assert(m2[a] == m[a0]);
        assert(m2[b] == m[b0]);
        assert(container_names(m)[a0] == m[a0].name);
        assert(container_names(m)[b0] == m[b0].name);
    }
    assert forall|a: int| 0 <= a < m2.len() implies distinct_seqs(
        item_keys(#[trigger] m2[a].items),
    ) by {
        let a0: int = if a < i { a } else { a + 1 };
        assert(m2[a] == m[a0]);
    }
}

/// A put keeps a container's keys distinct: an existing key is overwritten
/// in place, a new key is appended.
pub proof fn lemma_put_preserves_distinct(items: Seq<ItemModel>, key: Seq<char>, data: Seq<u8>)
    requires
        distinct_seqs(item_keys(items)),
    ensures
        distinct_seqs(item_keys(put_items_effect(items, key, data))),
{
    let items2 = put_items_effect(items, key, data);
    if has_item(items, key) {
        let i = item_at(items, key);
        assert(0 <= i < items.len() && items[i].key == key);
        assert(item_keys(items2) =~= item_keys(items));
    } else {
        assert forall|a: int, b: int|
            0 <= a < b < item_keys(items2).len() implies item_keys(items2)[a] != item_keys(
            items2,
        )[b] by {
            if b == items.len() {
                assert(item_keys(items2)[b] == key);
                assert(item_keys(items2)[a] == items[a].key);
                if items[a].key == key {
                    assert(has_item(items, key));
                }
            } else {
                assert(item_keys(items)[a] == item_keys(items2)[a]);
                assert(item_keys(items)[b] == item_keys(items2)[b]);
            }
        }
    }
}

/// Replacing one container's items — its name untouched — preserves store
/// validity provided the new keys are distinct.
pub proof fn lemma_update_items_preserves_wf(
    m: Seq<ContainerModel>,
    i: int,
    items2: Seq<ItemModel>,
)
    requires
        wf_store(m),
        0 <= i < m.len(),
        distinct_seqs(item_keys(items2)),
    ensures
        wf_store(
            m.update(
                i,
                ContainerModel {
                    name: m[i].name,
                    location_constraint: m[i].location_constraint,
                    items: items2,
                },
            ),
        ),
{
    let m2 = m.update(
        i,
        ContainerModel {
            name: m[i].name,
            location_constraint: m[i].location_constraint,
            items: items2,
        },
    );
    assert(container_names(m2) =~= container_names(m));
    assert forall|a: int| 0 <= a < m2.len() implies distinct_seqs(
        item_keys(#[trigger] m2[a].items),
    ) by {
        if a != i {
            assert(m2[a] == m[a]);
        }
    }
}

/// Removing one item keeps a container's keys distinct.
pub proof fn lemma_remove_item_preserves_distinct(items: Seq<ItemModel>, j: int)
    requires
        distinct_seqs(item_keys(items)),
        0 <= j < items.len(),
    ensures
        distinct_seqs(item_keys(items.remove(j))),
{
    let items2 = items.remove(j);
    items.remove_ensures(j);
    assert forall|a: int, b: int|
        0 <= a < b < item_keys(items2).len() implies item_keys(items2)[a] != item_keys(
        items2,
    )[b] by {
        let a0: int = if a < j { a } else { a + 1 };
        let b0: int = if b < j { b } else { b + 1 };
        assert(items2[a] == items[a0]);
        assert(items2[b] == items[b0]);
        assert(item_keys(items)[a0] == items[a0].key);
        assert(item_keys(items)[b0] == items[b0].key);
    }
}

/// Removing an entry and inserting another at the same position is an
/// in-place replacement.
pub proof fn lemma_replace_at<T>(s: Seq<T>, i: int, x: T)
    requires
        0 <= i < s.len(),
    ensures
        s.remove(i).insert(i, x) =~= s.update(i, x),
{
    s.remove_ensures(i);
    s.remove(i).insert_ensures(i, x);
}

/// The in-memory provider with its call record.
pub struct Store {
    pub containers: Vec<Container>,
    pub log: CallLog,
}

impl Store {
    /// Mathematical view of the stored containers.
    pub open spec fn model(&self) -> Seq<ContainerModel> {
        self.containers.deep_view()
    }

    /// Store validity; `new` establishes it and every operation keeps it.
    pub open spec fn wf(&self) -> bool {
        wf_store(self.model())
    }

    /// An empty provider with a clean call record.
    pub fn new() -> (s: Store)
        ensures
            s.model() =~= Seq::<ContainerModel>::empty(),
            s.log == (CallLog { creates: 0, bucket_deletes: 0, puts: 0, object_deletes: 0 }),
            s.wf(),
    {
        Store {
            containers: Vec::new(),
            log: CallLog { creates: 0, bucket_deletes: 0, puts: 0, object_deletes: 0 },
        }
    }

    /// Snapshot of all container names, as an enumeration call returns it.
    pub fn list_buckets(&self) -> (names: Vec<String>)
        ensures
            names.deep_view() == container_names(self.model()),
    {
        let mut names: Vec<String> = Vec::new();
        let mut i: usize = 0;
        while i < self.containers.len()
            invariant
                i <= self.containers.len(),
                names@.len() == i,
                forall|j: int| 0 <= j < i ==> names@[j]@ == self.containers@[j].name@,
            decreases self.containers.len() - i,
        {
            names.push(self.containers[i].name.clone());
            i += 1;
        }
        proof {
            assert forall|j: int| 0 <= j < names@.len() implies names.deep_view()[j]
                == container_names(self.model())[j] by {
                assert(names.deep_view()[j] == names@[j]@);
                assert(container_names(self.model())[j] == self.containers@[j].name@);
            }
            assert(names.deep_view() =~= container_names(self.model()));
        }
        names
    }

    /// Whether a container of this name exists, decided as the tool decides
    /// it: by scanning a fresh enumeration of all container names.
    pub fn bucket_exists(&self, name: &String) -> (r: bool)
        ensures
            r == has_container(self.model(), name@),
    {
        let names = self.list_buckets();
        let r = guard::bucket_exists(&names, name);
        proof {
            lemma_contains_names(self.model(), name@);
        }
        r
    }

    /// The index of the container of this name, when it exists.
    fn find_container(&self, name: &String) -> (r: Option<usize>)
        ensures
            r matches Some(i) ==> i < self.containers.len() && self.model()[i as int].name
                == name@,
            r is None ==> !has_container(self.model(), name@),
    {
        let mut i: usize = 0;
        while i < self.containers.len()
            invariant
                i <= self.containers.len(),
                forall|j: int| 0 <= j < i ==> self.model()[j].name != name@,
            decreases self.containers.len() - i,
        {
            if self.containers[i].name == *name {
                assert(self.model()[i as int].name == name@);
                return Some(i);
            }
            i += 1;
        }
        None
    }

    /// Snapshot of the keys inside one container, as an enumeration of its
    /// contents returns them.
    fn object_keys(&self, i: usize) -> (keys: Vec<String>)
        requires
            i < self.containers.len(),
        ensures
            keys.deep_view() == item_keys(self.model()[i as int].items),
    {
        let c = &self.containers[i];
        let mut keys: Vec<String> = Vec::new();
        let mut j: usize = 0;
        while j < c.items.len()
            invariant
                j <= c.items.len(),
                keys@.len() == j,
                c == &self.containers[i as int],
                i < self.containers.len(),
                forall|k: int| 0 <= k < j ==> keys@[k]@ == c.items@[k].key@,
            decreases c.items.len() - j,
        {
            keys.push(c.items[j].key.clone());
            j += 1;
        }
        proof {
            assert forall|k: int| 0 <= k < keys@.len() implies keys.deep_view()[k] == item_keys(
                self.model()[i as int].items,
            )[k] by {
                assert(keys.deep_view()[k] == keys@[k]@);
                assert(self.model()[i as int].items[k] == c.items@[k].deep_view());
            }
            assert(keys.deep_view() =~= item_keys(self.model()[i as int].items));
        }
        keys
    }

    /// Explicit container create. Refused — loudly, with nothing mutated and
    /// no provider call — when the name is already taken; otherwise one
    /// create call is issued, carrying a location constraint exactly when
    /// the region is not the default one.
    pub fn create_bucket(&mut self, name: &String, region: &String) -> (r: Result<(), StoreError>)
        requires
            old(self).wf(),
            old(self).log.creates < u64::MAX,
        ensures
            final(self).wf(),
            final(self).model() == create_effect(
                old(self).model(),
                name@,
                guard::constraint_for(region@),
            ).0,
            r == create_effect(old(self).model(), name@, guard::constraint_for(region@)).1,
            r is Ok ==> final(self).log == (CallLog {
                creates: (old(self).log.creates + 1) as u64,
                ..old(self).log
            }),
            r is Err ==> final(self).log == old(self).log,
    {
        let names = self.list_buckets();
        proof {
            lemma_contains_names(self.model(), name@);
        }
        match guard::plan_create_bucket(&names, name, region) {
            Err(e) => Err(e),
            Ok(plan) => {
                proof {
                    lemma_create_preserves_wf(
                        self.model(),
                        name@,
                        guard::constraint_for(region@),
                    );
                }
                let ghost m0 = self.model();
                self.containers.push(
                    Container {
                        name: name.clone(),
                        location_constraint: plan.location_constraint,
                        items: Vec::new(),
                    },
                );
                self.log.creates = self.log.creates + 1;
                proof {
                    assert(self.model() =~~= create_effect(
                        m0,
                        name@,
                        guard::constraint_for(region@),
                    ).0);
                }
                Ok(())
            },
        }
    }

    /// The index of the item of this key inside container `i`, when present.
    fn find_item(&self, i: usize, key: &String) -> (r: Option<usize>)
        requires
            i < self.containers.len(),
        ensures
            r matches Some(j) ==> j < self.containers@[i as int].items.len() && self.model()[
                i as int
            ].items[j as int].key == key@,
            r is None ==> !has_item(self.model()[i as int].items, key@),
    {
        let c = &self.containers[i];
        let mut j: usize = 0;
        while j < c.items.len()
            invariant
                j <= c.items.len(),
                c == &self.containers[i as int],
                i < self.containers.len(),
                forall|k: int| 0 <= k < j ==> self.model()[i as int].items.index(k).key != key@,
            decreases c.items.len() - j,
        {
            if c.items[j].key == *key {
                assert(self.model()[i as int].items[j as int].key == key@);
                return Some(j);
            }
            j += 1;
        }
        None
    }

    /// Container delete. Refused — with nothing mutated and no delete call —
    /// when the container is missing or its enumerated contents are not
    /// empty; only then is one delete call issued.
    pub fn delete_bucket(&mut self, name: &String) -> (r: Result<(), StoreError>)
        requires
            old(self).wf(),
            old(self).log.bucket_deletes < u64::MAX,
        ensures
            final(self).wf(),
            final(self).model() == delete_bucket_effect(old(self).model(), name@).0,
            r == delete_bucket_effect(old(self).model(), name@).1,
            r is Ok ==> final(self).log == (CallLog {
                bucket_deletes: (old(self).log.bucket_deletes + 1) as u64,
                ..old(self).log
            }),
            r is Err ==> final(self).log == old(self).log,
    {
        let names = self.list_buckets();
        proof {
            lemma_contains_names(self.model(), name@);
        }
        match guard::require_bucket(&names, name) {
            Err(e) => {
                return Err(e);
            },
            Ok(()) => {},
        }
        let idx = match self.find_container(name) {
            Some(i) => i,
            None => {
                proof {
                    assert(false);
                }
                return Err(StoreError::NoSuchBucket);
            },
        };
        proof {
            lemma_container_at_is(self.model(), name@, idx as int);
        }
        let keys = self.object_keys(idx);
        match guard::require_empty(&keys) {
            Err(e) => {
                proof {
                    assert(keys.deep_view().len() == self.model()[idx as int].items.len());
                }
                return Err(e);
            },
            Ok(()) => {},
        }
        proof {
            assert(keys.deep_view().len() == keys@.len());
            assert(self.model()[idx as int].items.len() == 0);
        }
        let ghost m0 = self.model();
        self.containers.remove(idx);
        self.log.bucket_deletes = self.log.bucket_deletes + 1;
        proof {
            lemma_remove_preserves_wf(m0, idx as int);
            m0.remove_ensures(idx as int);
            old(self).containers@.remove_ensures(idx as int);
            assert(self.model() =~~= m0.remove(idx as int));
        }
        Ok(())
    }

    /// Item listing: the container must exist; its keys are returned in
    /// store order, as an enumeration of its contents reports them.
    pub fn list_objects(&self, name: &String) -> (r: Result<Vec<String>, StoreError>)
        requires
            self.wf(),
        ensures
            ({
                let lr = list_result(self.model(), name@);
                match r {
                    Ok(keys) => lr matches Ok(ks) && keys.deep_view() == ks,
                    Err(e) => lr == Err::<Seq<Seq<char>>, StoreError>(e),
                }
            }),
    {
        let names = self.list_buckets();
        proof {
            lemma_contains_names(self.model(), name@);
        }
        match guard::require_bucket(&names, name) {
            Err(e) => {
                return Err(e);
            },
            Ok(()) => {},
        }
        let idx = match self.find_container(name) {
            Some(i) => i,
            None => {
                proof {
                    assert(false);
                }
                return Err(StoreError::NoSuchBucket);
            },
        };
        proof {
            lemma_container_at_is(self.model(), name@, idx as int);
        }
        Ok(self.object_keys(idx))
    }

    /// Copies a byte payload.
    fn clone_data(data: &Vec<u8>) -> (r: Vec<u8>)
        ensures
            r@ == data@,
    {
        let mut out: Vec<u8> = Vec::new();
        let mut i: usize = 0;
        while i < data.len()
            invariant
                i <= data.len(),
                out@ =~= data@.subrange(0, i as int),
            decreases data.len() - i,
        {
            out.push(data[i]);
            proof {
                assert(out@ =~= data@.subrange(0, (i + 1) as int));
            }
            i += 1;
        }
        proof {
            assert(out@ =~= data@);
        }
        out
    }

    /// Item upload, the one auto-creating operation: a missing container is
    /// created first — through the same create path, region branch included —
    /// then exactly one put stores the payload under the key derived from
    /// the local path, overwriting any item of that key.
    pub fn upload_object(
        &mut self,
        bucket: &String,
        path: &String,
        data: &Vec<u8>,
        region: &String,
    ) -> (key: String)
        requires
            old(self).wf(),
            guard::key_of_path(path@).len() > 0,
            old(self).log.puts < u64::MAX,
            old(self).log.creates < u64::MAX,
        ensures
            final(self).wf(),
            key@ == guard::key_of_path(path@),
            ({
                let (m2, created) = upload_effect(
                    old(self).model(),
                    bucket@,
                    guard::constraint_for(region@),
                    guard::key_of_path(path@),
                    data@,
                );
                &&& final(self).model() == m2
                &&& created == !has_container(old(self).model(), bucket@)
                &&& final(self).log.puts == old(self).log.puts + 1
                &&& final(self).log.creates == old(self).log.creates + (if created {
                    1int
                } else {
                    0int
                })
                &&& final(self).log.bucket_deletes == old(self).log.bucket_deletes
                &&& final(self).log.object_deletes == old(self).log.object_deletes
            }),
    {
        let key = match guard::derive_key(path) {
            Some(k) => k,
            None => {
                proof {
                    assert(false);
                }
                String::new()
            },
        };
        let names = self.list_buckets();
        proof {
            lemma_contains_names(self.model(), bucket@);
        }
        let ghost m0 = self.model();
        if !guard::bucket_exists(&names, bucket) {
            let created_now = self.create_bucket(bucket, region);
            proof {
                assert(created_now is Ok);
                assert(self.model()[m0.len() as int].name == bucket@);
            }
        }
        let ghost m1 = self.model();
        let idx = match self.find_container(bucket) {
            Some(i) => i,
            None => {
                proof {
                    assert(has_container(m1, bucket@));
                    assert(false);
                }
                return String::new();
            },
        };
        proof {
            lemma_container_at_is(m1, bucket@, idx as int);
        }
        let item = Item { key: key.clone(), data: Self::clone_data(data) };
        let ghost items0 = m1[idx as int].items;
        let ghost a0 = self.containers@;
        match self.find_item(idx, &key) {
            Some(j) => {
                let mut c = self.containers.remove(idx);
                let ghost cv = c;
                c.items.remove(j);
                c.items.insert(j, item);
                self.containers.insert(idx, c);
                proof {
                    lemma_item_at_is(items0, key@, j as int);
                    lemma_replace_at(cv.items@, j as int, item);
                    assert(c.items.deep_view() =~~= put_items_effect(items0, key@, data@));
                    lemma_replace_at(a0, idx as int, c);
                    assert(self.model() =~~= m1.update(
                        idx as int,
                        ContainerModel {
                            name: m1[idx as int].name,
                            location_constraint: m1[idx as int].location_constraint,
                            items: put_items_effect(items0, key@, data@),
                        },
                    ));
                }
            },
            None => {
                let mut c = self.containers.remove(idx);
                c.items.push(item);
                self.containers.insert(idx, c);
                proof {
                    assert(c.items.deep_view() =~~= put_items_effect(items0, key@, data@));
                    lemma_replace_at(a0, idx as int, c);
                    assert(self.model() =~~= m1.update(
                        idx as int,
                        ContainerModel {
                            name: m1[idx as int].name,
                            location_constraint: m1[idx as int].location_constraint,
                            items: put_items_effect(items0, key@, data@),
                        },
                    ));
                }
            },
        }
        self.log.puts = self.log.puts + 1;
        proof {
            let items2 = put_items_effect(items0, key@, data@);
            lemma_put_preserves_distinct(items0, key@, data@);
            lemma_update_items_preserves_wf(m1, idx as int, items2);
            assert(self.model() =~~= m1.update(
                idx as int,
                ContainerModel {
                    name: m1[idx as int].name,
                    location_constraint: m1[idx as int].location_constraint,
                    items: items2,
                },
            ));
            assert(self.model() =~~= upload_effect(
                m0,
                bucket@,
                guard::constraint_for(region@),
                guard::key_of_path(path@),
                data@,
            ).0);
        }
        key
    }

    /// Item delete. Refused — with nothing mutated and no delete call — when
    /// the container is missing or the key is not among its enumerated
    /// contents; only then is one delete call issued.
    pub fn delete_object(&mut self, bucket: &String, key: &String) -> (r: Result<(), StoreError>)
        requires
            old(self).wf(),
            old(self).log.object_deletes < u64::MAX,
        ensures
            final(self).wf(),
            final(self).model() == delete_object_effect(old(self).model(), bucket@, key@).0,
            r == delete_object_effect(old(self).model(), bucket@, key@).1,
            r is Ok ==> final(self).log == (CallLog {
                object_deletes: (old(self).log.object_deletes + 1) as u64,
                ..old(self).log
            }),
            r is Err ==> final(self).log == old(self).log,
    {
        let names = self.list_buckets();
        proof {
            lemma_contains_names(self.model(), bucket@);
        }
        match guard::require_bucket(&names, bucket) {
            Err(e) => {
                return Err(e);
            },
            Ok(()) => {},
        }
        let idx = match self.find_container(bucket) {
            Some(i) => i,
            None => {
                proof {
                    assert(false);
                }
                return Err(StoreError::NoSuchBucket);
            },
        };
        let ghost m0 = self.model();
        proof {
            lemma_container_at_is(m0, bucket@, idx as int);
        }
        let keys = self.object_keys(idx);
        proof {
            lemma_contains_keys(m0[idx as int].items, key@);
        }
        match guard::require_key(&keys, key) {
            Err(e) => {
                return Err(e);
            },
            Ok(()) => {},
        }
        let jdx = match self.find_item(idx, key) {
            Some(j) => j,
            None => {
                proof {
                    assert(false);
                }
                return Err(StoreError::NoSuchKey);
            },
        };
        let ghost items0 = m0[idx as int].items;
        let mut c = self.containers.remove(idx);
        let ghost cv = c;
        c.items.remove(jdx);
        self.containers.insert(idx, c);
        self.log.object_deletes = self.log.object_deletes + 1;
        proof {
            lemma_item_at_is(items0, key@, jdx as int);
            cv.items@.remove_ensures(jdx as int);
            items0.remove_ensures(jdx as int);
            assert(c.items.deep_view() =~~= items0.remove(jdx as int));
            let items2 = items0.remove(jdx as int);
            lemma_remove_item_preserves_distinct(items0, jdx as int);
            lemma_update_items_preserves_wf(m0, idx as int, items2);
            lemma_replace_at(old(self).containers@, idx as int, c);
            assert(self.model() =~~= m0.update(
                idx as int,
                ContainerModel {
                    name: m0[idx as int].name,
                    location_constraint: m0[idx as int].location_constraint,
                    items: items2,
                },
            ));
            assert(self.model() =~~= delete_object_effect(m0, bucket@, key@).0);
        }
        Ok(())
    }

    /// Item get. The guard checks only that the key occurs among the
    /// container's enumerated contents; a missing container surfaces as the
    /// enumeration itself failing. On success the payload is returned with
    /// the local path it is written to, derived from the key.
    pub fn get_object(&self, bucket: &String, key: &String) -> (r: Result<
        (Vec<u8>, String),
        StoreError,
    >)
        requires
            self.wf(),
        ensures
            ({
                let gr = get_result(self.model(), bucket@, key@);
                match r {
                    Ok(p) => gr matches Ok(q) && p.0@ == q.0 && p.1@ == q.1,
                    Err(e) => gr == Err::<(Seq<u8>, Seq<char>), StoreError>(e),
                }
            }),
    {
        let idx = match self.find_container(bucket) {
            Some(i) => i,
            None => {
                return Err(StoreError::NoSuchBucket);
            },
        };
        proof {
            lemma_container_at_is(self.model(), bucket@, idx as int);
        }
        let keys = self.object_keys(idx);
        proof {
            lemma_contains_keys(self.model()[idx as int].items, key@);
        }
        match guard::require_key(&keys, key) {
            Err(e) => {
                return Err(e);
            },
            Ok(()) => {},
        }
        let jdx = match self.find_item(idx, key) {
            Some(j) => j,
            None => {
                proof {
                    assert(false);
                }
                return Err(StoreError::NoSuchKey);
            },
        };
        proof {
            lemma_item_at_is(self.model()[idx as int].items, key@, jdx as int);
        }
        let data = Self::clone_data(&self.containers[idx].items[jdx].data);
        let dest = guard::download_path(key);
        Ok((data, dest))
    }
}

} // verus!
