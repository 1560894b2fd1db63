//! Precondition guards for container (bucket) and item (object) operations.
//!
//! Each function here takes a snapshot that the caller has just fetched from
//! the provider — the list of container names, or the list of keys inside one
//! container — and decides whether the requested operation may go ahead.
//! Existence is always decided by a full enumeration of that snapshot with
//! exact, case-sensitive string comparison, never by a targeted probe.

use crate::errors::StoreError;
use vstd::prelude::*;
use vstd::string::StrSliceExecFns;
use vstd::string::StringExecFns;

verus! {

/// The provider's default region: creating a container there takes an
/// unparameterized create call, every other region a location constraint.
pub open spec fn is_default_region(region: Seq<char>) -> bool {
    region == "us-east-1"@
}

/// The location constraint a create call for `region` must carry: none in the
/// default region, the region name itself everywhere else.
pub open spec fn constraint_for(region: Seq<char>) -> Option<Seq<char>> {
    if is_default_region(region) {
        None
    } else {
        Some(region)
    }
}

/// Whether `name` occurs in the list `names`, compared exactly.
pub open spec fn contains_name(names: Seq<Seq<char>>, name: Seq<char>) -> bool {
    exists|i: int| 0 <= i < names.len() && names[i] == name
}

fn list_contains(list: &Vec<String>, s: &String) -> (r: bool)
    ensures
        r == contains_name(list.deep_view(), s@),
{
    let mut i: usize = 0;
    while i < list.len()
        invariant
            i <= list.len(),
            forall|j: int| 0 <= j < i ==> list.deep_view()[j] != s@,
        decreases list.len() - i,
    {
        if list[i] == *s {
            assert(list.deep_view()[i as int] == s@);
            return true;
        }
        i += 1;
    }
    false
}

/// Whether a container of this name exists, decided by scanning the full list
/// of container names for an exact match.
pub fn bucket_exists(names: &Vec<String>, name: &String) -> (r: bool)
    ensures
        r == contains_name(names.deep_view(), name@),
{
    list_contains(names, name)
}

/// Whether an item with this key exists, decided by scanning the container's
/// full key listing for an exact match.
pub fn key_exists(keys: &Vec<String>, key: &String) -> (r: bool)
    ensures
        r == contains_name(keys.deep_view(), key@),
{
    list_contains(keys, key)
}

/// Guard for operations that need the container to exist (delete, item
/// listing, item delete): refuses with `NoSuchBucket` when it is absent.
pub fn require_bucket(names: &Vec<String>, name: &String) -> (r: Result<(), StoreError>)
    ensures
        contains_name(names.deep_view(), name@) ==> r is Ok,
        !contains_name(names.deep_view(), name@) ==> r == Result::<(), StoreError>::Err(
            StoreError::NoSuchBucket,
        ),
{
    if bucket_exists(names, name) {
        Ok(())
    } else {
        Err(StoreError::NoSuchBucket)
    }
}

/// Guard for container deletion: the enumerated contents must be empty,
/// else the delete is refused with `NotEmpty`.
pub fn require_empty(keys: &Vec<String>) -> (r: Result<(), StoreError>)
    ensures
        keys@.len() == 0 ==> r is Ok,
        keys@.len() != 0 ==> r == Result::<(), StoreError>::Err(StoreError::NotEmpty),
{
    if keys.len() == 0 {
        Ok(())
    } else {
        Err(StoreError::NotEmpty)
    }
}

/// Guard for item delete and item get: the key must occur in the container's
/// enumerated key listing, else the operation is refused with `NoSuchKey`.
pub fn require_key(keys: &Vec<String>, key: &String) -> (r: Result<(), StoreError>)
    ensures
        contains_name(keys.deep_view(), key@) ==> r is Ok,
        !contains_name(keys.deep_view(), key@) ==> r == Result::<(), StoreError>::Err(
            StoreError::NoSuchKey,
        ),
{
    if key_exists(keys, key) {
        Ok(())
    } else {
        Err(StoreError::NoSuchKey)
    }
}

/// How a container create call is to be issued: with no location constraint
/// in the default region, with the region name attached everywhere else.
pub struct CreateBucketPlan {
    pub location_constraint: Option<String>,
}

/// Guard and plan for an explicit container create. A name that is already
/// taken is a precondition violation (`AlreadyExists`), never a silent no-op;
/// otherwise the returned plan fixes whether the create call carries a
/// location constraint.
pub fn plan_create_bucket(names: &Vec<String>, name: &String, region: &String) -> (r: Result<
    CreateBucketPlan,
    StoreError,
>)
    ensures
        contains_name(names.deep_view(), name@) ==> r == Result::<
            CreateBucketPlan,
            StoreError,
        >::Err(StoreError::AlreadyExists),
        !contains_name(names.deep_view(), name@) ==> (r matches Ok(p)
            && p.location_constraint.deep_view() == constraint_for(region@)),
{
    if bucket_exists(names, name) {
        return Err(StoreError::AlreadyExists);
    }
    let default_region: String = "us-east-1".to_owned();
    if *region == default_region {
        Ok(CreateBucketPlan { location_constraint: None })
    } else {
        Ok(CreateBucketPlan { location_constraint: Some(region.clone()) })
    }
}

/// Where the key of a path starts: just after the last separator, or at the
/// start when the path holds none.
pub open spec fn key_start(path: Seq<char>) -> int
    decreases path.len(),
{
    if path.len() == 0 {
        0
    } else if path.last() == '/' {
        path.len() as int
    } else {
        key_start(path.drop_last())
    }
}

/// The destination key an upload derives from a local path: the file-name
/// component, with every directory component stripped.
pub open spec fn key_of_path(path: Seq<char>) -> Seq<char> {
    path.subrange(key_start(path), path.len() as int)
}

/// Derives the upload key from a local path: the component after the last
/// separator. A path with nothing after its last separator yields no key.
pub fn derive_key(path: &String) -> (r: Option<String>)
    ensures
        key_of_path(path@).len() == 0 ==> r is None,
        key_of_path(path@).len() != 0 ==> (r matches Some(k) && k@ == key_of_path(path@)),
{
    let s = path.as_str();
    let n = s.unicode_len();
    let mut start: usize = 0;
    let mut i: usize = 0;
    proof {
        assert(path@.subrange(0, 0) =~= Seq::<char>::empty());
    }
    while i < n
        invariant
            s@ == path@,
            n == path@.len(),
            i <= n,
            start <= i,
            start == key_start(path@.subrange(0, i as int)),
        decreases n - i,
    {
        proof {
            let q = path@.subrange(0, (i + 1) as int);
            assert(q.drop_last() =~= path@.subrange(0, i as int));
            assert(q.last() == path@[i as int]);
        }
        if s.get_char(i) == '/' {
            start = i + 1;
        }
        i += 1;
    }
    proof {
        assert(path@.subrange(0, n as int) =~= path@);
    }
    let key = s.substring_char(start, n);
    if key.unicode_len() == 0 {
        None
    } else {
        Some(key.to_owned())
    }
}

/// The local file path a downloaded item is written to: the key under the
/// current directory, overwriting any file already there.
pub open spec fn download_path_spec(key: Seq<char>) -> Seq<char> {
    "./"@ + key
}

/// Builds the local destination path for a downloaded item.
pub fn download_path(key: &String) -> (r: String)
    ensures
        r@ == download_path_spec(key@),
{
    let p: String = "./".to_owned();
    p.concat(key.as_str())
}

} // verus!
