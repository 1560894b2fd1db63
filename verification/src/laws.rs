//! The lifecycle laws of the guard layer, proved once and for all over the
//! transition functions of [`crate::store`].

use crate::errors::StoreError;
use crate::guard;
use crate::store::container_at;
use crate::store::create_effect;
use crate::store::delete_bucket_effect;
use crate::store::delete_object_effect;
use crate::store::get_result;
use crate::store::has_container;
use crate::store::has_item;
use crate::store::item_at;
use crate::store::lemma_container_at_is;
use crate::store::lemma_create_preserves_wf;
use crate::store::lemma_item_at_is;
use crate::store::lemma_put_preserves_distinct;
use crate::store::lemma_update_items_preserves_wf;
use crate::store::list_result;
use crate::store::put_items_effect;
use crate::store::upload_effect;
use crate::store::wf_store;
use crate::store::ContainerModel;
use crate::store::ItemModel;
use vstd::prelude::*;

verus! {

/// Law: an explicit create immediately following a successful create of the
/// same name is refused as already existing — never a silent success — and
/// leaves the store unchanged, whatever region either call was issued for.
pub proof fn lemma_create_then_create(
    m: Seq<ContainerModel>,
    name: Seq<char>,
    c1: Option<Seq<char>>,
    c2: Option<Seq<char>>,
)
    requires
        create_effect(m, name, c1).1 is Ok,
    ensures
        ({
            let m1 = create_effect(m, name, c1).0;
            create_effect(m1, name, c2) == (m1, Err::<(), StoreError>(StoreError::AlreadyExists))
        }),
{
    let m1 = create_effect(m, name, c1).0;
    assert(m1[m.len() as int].name == name);
    assert(has_container(m1, name));
}

/// Law: deleting a container that still holds items is refused as not
/// empty, and the container still exists afterward.
pub proof fn lemma_delete_nonempty_refused(m: Seq<ContainerModel>, name: Seq<char>)
    requires
        wf_store(m),
        has_container(m, name),
        m[container_at(m, name)].items.len() > 0,
    ensures
        delete_bucket_effect(m, name) == (m, Err::<(), StoreError>(StoreError::NotEmpty)),
        has_container(delete_bucket_effect(m, name).0, name),
{
}

/// Law: for every container and key, deleting an item whose key is absent —
/// because the container's enumerated contents lack it, or because the
/// container itself is missing — is refused, and the store is left
/// untouched: no underlying delete call is issued.
pub proof fn lemma_delete_absent_key_refused(
    m: Seq<ContainerModel>,
    bucket: Seq<char>,
    key: Seq<char>,
)
    requires
        !has_container(m, bucket) || !has_item(m[container_at(m, bucket)].items, key),
    ensures
        delete_object_effect(m, bucket, key).0 == m,
        delete_object_effect(m, bucket, key).1 == (if !has_container(m, bucket) {
            Err::<(), StoreError>(StoreError::NoSuchBucket)
        } else {
            Err::<(), StoreError>(StoreError::NoSuchKey)
        }),
{
}

/// Law: an upload followed by a get of the key derived from the uploaded
/// path returns exactly the uploaded bytes, destined for the download path
/// built from that key.
pub proof fn lemma_upload_then_get(
    m: Seq<ContainerModel>,
    bucket: Seq<char>,
    path: Seq<char>,
    data: Seq<u8>,
    constraint: Option<Seq<char>>,
)
    requires
        wf_store(m),
        guard::key_of_path(path).len() > 0,
    ensures
        ({
            let key = guard::key_of_path(path);
            let m2 = upload_effect(m, bucket, constraint, key, data).0;
            get_result(m2, bucket, key) == Ok::<(Seq<u8>, Seq<char>), StoreError>(
                (data, guard::download_path_spec(key)),
            )
        }),
{
    let key = guard::key_of_path(path);
    let m1 = if has_container(m, bucket) {
        m
    } else {
        create_effect(m, bucket, constraint).0
    };
    if !has_container(m, bucket) {
        lemma_create_preserves_wf(m, bucket, constraint);
        assert(m1[m.len() as int].name == bucket);
        assert(has_container(m1, bucket));
    }
    let i = container_at(m1, bucket);
    assert(0 <= i < m1.len() && m1[i].name == bucket);
    let items2 = put_items_effect(m1[i].items, key, data);
    let m2 = m1.update(
        i,
        ContainerModel {
            name: m1[i].name,
            location_constraint: m1[i].location_constraint,
            items: items2,
        },
    );
    assert(upload_effect(m, bucket, constraint, key, data).0 == m2);
    lemma_put_preserves_distinct(m1[i].items, key, data);
    lemma_update_items_preserves_wf(m1, i, items2);
    lemma_container_at_is(m2, bucket, i);
    if has_item(m1[i].items, key) {
        let j = item_at(m1[i].items, key);
        assert(0 <= j < m1[i].items.len() && m1[i].items[j].key == key);
        assert(items2[j] == ItemModel { key, data });
        lemma_item_at_is(items2, key, j);
    } else {
        let j = m1[i].items.len() as int;
        assert(items2[j] == ItemModel { key, data });
        lemma_item_at_is(items2, key, j);
    }
    assert(items2[item_at(items2, key)].data == data);
}

/// Law: listing is a pure function of the store's state, and the listing
/// operation mutates nothing: two listings of a container with no
/// intervening mutation return the same keys and the same count.
pub proof fn lemma_list_idempotent(
    m1: Seq<ContainerModel>,
    m2: Seq<ContainerModel>,
    name: Seq<char>,
)
    requires
        m1 == m2,
    ensures
        list_result(m1, name) == list_result(m2, name),
{
}

} // verus!
