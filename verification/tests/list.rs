use s3_algo::config::Config;
use s3_algo::list::{
    failure_error, KeyMapping, ListObjects, ListPage, ObjectRecord, S3Algo, S3Error, StorageVerb,
};
use s3_algo::retry::RetryError;

type Store = Vec<(String, Vec<u8>)>;

/// Drive the listing cursor against an in-memory bucket, `page_size`
/// records per page, and return the pages in issuance order.
fn run_listing(store: &Store, listing: &mut ListObjects, page_size: usize) -> Vec<ListPage> {
    let mut pages = Vec::new();
    while let Some(request) = listing.next_request() {
        let matching: Vec<&(String, Vec<u8>)> = store
            .iter()
            .filter(|(k, _)| k.starts_with(&request.prefix))
            .collect();
        let start: usize = match &request.continuation_token {
            Some(t) => t.parse().unwrap(),
            None => 0,
        };
        let end = (start + page_size).min(matching.len());
        let records = matching[start..end]
            .iter()
            .map(|(k, v)| ObjectRecord {
                key: k.clone(),
                size: v.len() as u64,
            })
            .collect();
        let next_token = if end < matching.len() {
            Some(end.to_string())
        } else {
            None
        };
        pages.push(ListPage {
            records,
            next_token: next_token.clone(),
        });
        listing.advance(next_token);
    }
    pages
}

fn algo() -> S3Algo {
    S3Algo::new(Config::default())
}

#[test]
fn test_s3_delete_files() {
    // More objects than one page holds: upload 11_000, delete all
    // page by page, re-list, and find the bucket empty.
    const N_FILES: usize = 11_000;
    let dir = "delete-me";
    let mut store: Store = (0..N_FILES)
        .map(|i| (format!("{}/{}.file", dir, i), vec![1, 2, 3]))
        .collect();

    let mut listing = algo().list_prefix("test-bucket".to_string(), String::new());
    let pages = run_listing(&store, &mut listing, 1000);
    assert_eq!(pages.len(), 11);

    let delete_requests = listing.delete_all(&pages);
    assert_eq!(delete_requests.len(), pages.len());
    for request in &delete_requests {
        assert_eq!(request.bucket, "test-bucket");
        store.retain(|(k, _)| !request.keys.contains(k));
    }

    let mut relisting = algo().list_prefix("test-bucket".to_string(), String::new());
    let pages = run_listing(&store, &mut relisting, 1000);
    let count = relisting.flatten(&pages).len();
    assert_eq!(count, 0);
}

#[test]
fn listing_small_pages_yields_every_key() {
    // 25 objects listed 3 at a time: exactly the 25 keys, no
    // duplicates, no omissions.
    const M: usize = 25;
    let store: Store = (0..M)
        .map(|i| (format!("obj-{:02}", i), vec![0u8; i]))
        .collect();
    let mut listing = algo().list_objects("bucket".to_string());
    let pages = run_listing(&store, &mut listing, 3);
    let records = listing.flatten(&pages);
    assert_eq!(records.len(), M);
    let mut keys: Vec<String> = records.iter().map(|r| r.key.clone()).collect();
    keys.sort();
    keys.dedup();
    assert_eq!(keys.len(), M);
    for i in 0..M {
        assert!(keys.contains(&format!("obj-{:02}", i)));
        assert_eq!(records[i].size, i as u64);
    }
}

#[test]
fn cursor_terminates_on_missing_token_only() {
    let mut listing = algo().list_objects("b".to_string());
    // first request owed even though there is no token yet
    let first = listing.next_request().unwrap();
    assert!(first.continuation_token.is_none());
    listing.advance(Some("42".to_string()));
    let second = listing.next_request().unwrap();
    assert_eq!(second.continuation_token.as_deref(), Some("42"));
    listing.advance(None);
    assert!(listing.next_request().is_none());
}

fn apply_move_plan(
    store: &mut Store,
    plan: &[(s3_algo::list::CopyRequest, s3_algo::list::DeleteRequest)],
) {
    for (copy, delete) in plan {
        let body = store
            .iter()
            .find(|(k, _)| *k == copy.source_key)
            .map(|(_, v)| v.clone())
            .unwrap();
        store.push((copy.key.clone(), body));
        store.retain(|(k, _)| *k != delete.key);
    }
}

#[test]
fn move_to_prefix_renames_and_removes() {
    let mut store: Store = vec![
        ("a/b/1.txt".to_string(), b"one".to_vec()),
        ("a/b/2.txt".to_string(), b"two".to_vec()),
    ];
    let mut listing = algo().list_prefix("bucket".to_string(), "a/b/".to_string());
    let pages = run_listing(&store, &mut listing, 1000);
    let records = listing.flatten(&pages);
    assert_eq!(records.len(), 2);

    let plan = listing.move_to_prefix(&records, None, "c/".to_string());
    assert_eq!(plan.len(), 2);
    for (copy, delete) in &plan {
        assert_eq!(copy.source_bucket, "bucket");
        assert_eq!(copy.bucket, "bucket");
        assert_eq!(delete.bucket, "bucket");
        assert_eq!(copy.source_key, delete.key);
    }
    apply_move_plan(&mut store, &plan);

    assert_eq!(store.len(), 2);
    let find = |key: &str| {
        store
            .iter()
            .find(|(k, _)| k == key)
            .map(|(_, v)| v.clone())
    };
    assert_eq!(find("c/1.txt").unwrap(), b"one".to_vec());
    assert_eq!(find("c/2.txt").unwrap(), b"two".to_vec());
    assert!(find("a/b/1.txt").is_none());
    assert!(find("a/b/2.txt").is_none());
}

#[test]
fn copy_all_maps_keys_and_buckets() {
    let records = vec![
        ObjectRecord {
            key: "x/1".to_string(),
            size: 11,
        },
        ObjectRecord {
            key: "x/2".to_string(),
            size: 22,
        },
    ];
    let listing = algo().list_prefix("src-bucket".to_string(), "x/".to_string());
    let dest = "dst-bucket".to_string();
    let requests = listing.copy_all(&records, Some(&dest), &KeyMapping::Identity);
    assert_eq!(requests.len(), 2);
    assert_eq!(requests[0].source_bucket, "src-bucket");
    assert_eq!(requests[0].source_key, "x/1");
    assert_eq!(requests[0].bucket, "dst-bucket");
    assert_eq!(requests[0].key, "x/1");
    assert_eq!(requests[1].size, 22);
}

#[test]
fn substitute_prefix_mapping() {
    let mapping = KeyMapping::SubstitutePrefix {
        old_prefix: "a/b/".to_string(),
        new_prefix: "c/".to_string(),
    };
    assert_eq!(mapping.apply("a/b/1.txt"), "c/1.txt");
    // a key without the old prefix keeps its whole name under the new one
    assert_eq!(mapping.apply("z/9.txt"), "c/z/9.txt");
    // empty old prefix: everything moves under the new prefix
    let under = KeyMapping::SubstitutePrefix {
        old_prefix: String::new(),
        new_prefix: "c/".to_string(),
    };
    assert_eq!(under.apply("1.txt"), "c/1.txt");
}

#[test]
fn download_all_pairs_keys_with_sizes() {
    let records = vec![ObjectRecord {
        key: "file.txt".to_string(),
        size: 5_000_000,
    }];
    let listing = algo().list_objects("testing".to_string());
    let requests = listing.download_all(&records);
    assert_eq!(requests.len(), 1);
    assert_eq!(requests[0].bucket, "testing");
    assert_eq!(requests[0].key, "file.txt");
    assert_eq!(requests[0].size, 5_000_000);
}

#[test]
fn failure_error_kinds() {
    let bucket = "b".to_string();
    let key = "k".to_string();
    let op_err = RetryError::OperationFailed {
        attempts: 10,
        total_time_ms: 1,
    };
    let timer_err = RetryError::TimeoutElapsed {
        attempts: 10,
        total_time_ms: 1,
    };
    assert!(matches!(
        failure_error(StorageVerb::List, &bucket, &key, &op_err),
        S3Error::ListFailed { .. }
    ));
    assert!(matches!(
        failure_error(StorageVerb::Get, &bucket, &key, &op_err),
        S3Error::GetFailed { .. }
    ));
    assert!(matches!(
        failure_error(StorageVerb::Put, &bucket, &key, &op_err),
        S3Error::PutFailed { .. }
    ));
    assert!(matches!(
        failure_error(StorageVerb::Copy, &bucket, &key, &op_err),
        S3Error::CopyFailed { .. }
    ));
    assert!(matches!(
        failure_error(StorageVerb::Delete, &bucket, &key, &op_err),
        S3Error::DeleteFailed { .. }
    ));
    assert!(matches!(
        failure_error(StorageVerb::BatchDelete, &bucket, &key, &op_err),
        S3Error::BatchDeleteFailed { .. }
    ));
    assert!(matches!(
        failure_error(StorageVerb::Put, &bucket, &key, &timer_err),
        S3Error::TimeoutElapsed { .. }
    ));
}
