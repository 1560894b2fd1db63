use cloudguard::errors::StoreError;
use cloudguard::store::Store;

fn s(v: &str) -> String {
    String::from(v)
}

#[test]
fn create_bucket_reports_success() {
    let mut store = Store::new();
    let r = store.create_bucket(&s("data"), &s("us-east-1"));
    assert_eq!(r, Ok(()));
    assert!(store.bucket_exists(&s("data")));
    assert_eq!(store.log.creates, 1);
}

#[test]
fn create_twice_fails_loud() {
    let mut store = Store::new();
    assert_eq!(store.create_bucket(&s("x"), &s("us-east-1")), Ok(()));
    let second = store.create_bucket(&s("x"), &s("us-east-1"));
    assert_eq!(second, Err(StoreError::AlreadyExists));
    // the refused create issued no provider call and changed nothing
    assert_eq!(store.log.creates, 1);
    assert_eq!(store.containers.len(), 1);
    assert!(store.bucket_exists(&s("x")));
}

#[test]
fn delete_nonempty_bucket_refused() {
    let mut store = Store::new();
    assert_eq!(store.create_bucket(&s("full"), &s("us-east-1")), Ok(()));
    store.upload_object(&s("full"), &s("report.txt"), &vec![1, 2, 3], &s("us-east-1"));
    let r = store.delete_bucket(&s("full"));
    assert_eq!(r, Err(StoreError::NotEmpty));
    // the container still exists and no delete call was issued
    assert!(store.bucket_exists(&s("full")));
    assert_eq!(store.log.bucket_deletes, 0);
}

#[test]
fn delete_empty_bucket_succeeds() {
    let mut store = Store::new();
    assert_eq!(store.create_bucket(&s("tmp"), &s("us-east-1")), Ok(()));
    assert_eq!(store.delete_bucket(&s("tmp")), Ok(()));
    assert!(!store.bucket_exists(&s("tmp")));
    assert_eq!(store.log.bucket_deletes, 1);
}

#[test]
fn delete_missing_bucket_refused() {
    let mut store = Store::new();
    assert_eq!(store.delete_bucket(&s("ghost")), Err(StoreError::NoSuchBucket));
    assert_eq!(store.log.bucket_deletes, 0);
}

#[test]
fn delete_absent_key_issues_no_delete_call() {
    let mut store = Store::new();
    assert_eq!(store.create_bucket(&s("b"), &s("us-east-1")), Ok(()));
    store.upload_object(&s("b"), &s("present.txt"), &vec![7], &s("us-east-1"));
    let r = store.delete_object(&s("b"), &s("absent.txt"));
    assert_eq!(r, Err(StoreError::NoSuchKey));
    // zero delete calls recorded; the present item is untouched
    assert_eq!(store.log.object_deletes, 0);
    assert_eq!(store.list_objects(&s("b")), Ok(vec![s("present.txt")]));
}

#[test]
fn delete_object_in_missing_bucket_refused() {
    let mut store = Store::new();
    let r = store.delete_object(&s("nowhere"), &s("k"));
    assert_eq!(r, Err(StoreError::NoSuchBucket));
    assert_eq!(store.log.object_deletes, 0);
}

#[test]
fn delete_present_key_succeeds() {
    let mut store = Store::new();
    assert_eq!(store.create_bucket(&s("b"), &s("us-east-1")), Ok(()));
    store.upload_object(&s("b"), &s("a.bin"), &vec![1], &s("us-east-1"));
    assert_eq!(store.delete_object(&s("b"), &s("a.bin")), Ok(()));
    assert_eq!(store.log.object_deletes, 1);
    assert_eq!(store.list_objects(&s("b")), Ok(vec![]));
}

#[test]
fn upload_then_get_round_trips_bytes() {
    let mut store = Store::new();
    let payload: Vec<u8> = vec![0, 155, 7, 42, 255, 0, 13];
    let key = store.upload_object(
        &s("media"),
        &s("/local/shots/photo.png"),
        &payload,
        &s("us-east-1"),
    );
    assert_eq!(key, s("photo.png"));
    let got = store.get_object(&s("media"), &key).unwrap();
    assert_eq!(got.0, payload);
    assert_eq!(got.1, s("./photo.png"));
}

#[test]
fn upload_auto_creates_missing_bucket() {
    let mut store = Store::new();
    assert!(!store.bucket_exists(&s("fresh")));
    store.upload_object(&s("fresh"), &s("f.txt"), &vec![9], &s("eu-west-1"));
    assert!(store.bucket_exists(&s("fresh")));
    assert_eq!(store.log.creates, 1);
    assert_eq!(store.log.puts, 1);
    // the auto-create went through the region branch like an explicit one
    assert_eq!(store.containers[0].location_constraint, Some(s("eu-west-1")));
}

#[test]
fn upload_to_existing_bucket_creates_nothing() {
    let mut store = Store::new();
    assert_eq!(store.create_bucket(&s("b"), &s("us-east-1")), Ok(()));
    store.upload_object(&s("b"), &s("f.txt"), &vec![1], &s("us-east-1"));
    assert_eq!(store.log.creates, 1);
    assert_eq!(store.log.puts, 1);
}

#[test]
fn upload_same_key_overwrites() {
    let mut store = Store::new();
    store.upload_object(&s("b"), &s("doc.txt"), &vec![1, 1], &s("us-east-1"));
    store.upload_object(&s("b"), &s("backup/doc.txt"), &vec![2, 2, 2], &s("us-east-1"));
    let got = store.get_object(&s("b"), &s("doc.txt")).unwrap();
    assert_eq!(got.0, vec![2, 2, 2]);
    assert_eq!(store.log.puts, 2);
    assert_eq!(store.log.creates, 1);
    assert_eq!(store.list_objects(&s("b")), Ok(vec![s("doc.txt")]));
}

#[test]
fn listing_twice_returns_same_keys_and_count() {
    let mut store = Store::new();
    store.upload_object(&s("b"), &s("one"), &vec![1], &s("us-east-1"));
    store.upload_object(&s("b"), &s("two"), &vec![2], &s("us-east-1"));
    let first = store.list_objects(&s("b")).unwrap();
    let second = store.list_objects(&s("b")).unwrap();
    assert_eq!(first, second);
    assert_eq!(first.len(), 2);
    assert_eq!(first, vec![s("one"), s("two")]);
}

#[test]
fn listing_missing_bucket_refused() {
    let store = Store::new();
    assert_eq!(store.list_objects(&s("void")), Err(StoreError::NoSuchBucket));
}

#[test]
fn get_absent_key_refused() {
    let mut store = Store::new();
    assert_eq!(store.create_bucket(&s("b"), &s("us-east-1")), Ok(()));
    let r = store.get_object(&s("b"), &s("missing"));
    assert_eq!(r.err(), Some(StoreError::NoSuchKey));
}

#[test]
fn get_from_missing_bucket_fails_at_enumeration() {
    let store = Store::new();
    let r = store.get_object(&s("void"), &s("k"));
    assert_eq!(r.err(), Some(StoreError::NoSuchBucket));
}

#[test]
fn default_region_create_carries_no_constraint() {
    let mut store = Store::new();
    assert_eq!(store.create_bucket(&s("x"), &s("us-east-1")), Ok(()));
    assert_eq!(store.containers[0].location_constraint, None);
}

#[test]
fn other_region_create_carries_constraint() {
    let mut store = Store::new();
    assert_eq!(store.create_bucket(&s("x"), &s("eu-west-1")), Ok(()));
    assert_eq!(store.containers[0].location_constraint, Some(s("eu-west-1")));
}

#[test]
fn list_buckets_reports_all_names() {
    let mut store = Store::new();
    assert_eq!(store.create_bucket(&s("alpha"), &s("us-east-1")), Ok(()));
    assert_eq!(store.create_bucket(&s("beta"), &s("eu-west-1")), Ok(()));
    assert_eq!(store.list_buckets(), vec![s("alpha"), s("beta")]);
}

#[test]
fn error_descriptions_are_fixed() {
    assert_eq!(StoreError::AlreadyExists.describe(), "bucket already exists");
    assert_eq!(StoreError::NoSuchBucket.describe(), "bucket does not exist");
    assert_eq!(StoreError::NotEmpty.describe(), "bucket is not empty");
    assert_eq!(StoreError::NoSuchKey.describe(), "key does not exist in bucket");
}
