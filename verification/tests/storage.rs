use engula::cmd::info::{parse_frames, CommandDescs, DbStats, Frame, Info, Parse};
use engula::kernel::{batch_response, supervisor_requests, BatchRequest, BatchResponse};
use engula::lsmstore::{Bucket, BucketIter, Store, Tenant};
use engula::platform::s3::{
    byte_range, checked_byte_range, first_token, plan_page, read_failure, size_failure, ListPage, NextStep,
};
use engula::storage::{
    Error, FsBucket, FsStorage, LocalBucket, LocalObject, LocalObjectUploader, MemStorage, ObjectReader,
};
use engula::stream_engine::{union_request, union_response, Union};
use engula::text::decimal;

#[test]
fn numbers_are_written_in_decimal() {
    assert_eq!(decimal(0), "0");
    assert_eq!(decimal(7), "7");
    assert_eq!(decimal(10), "10");
    assert_eq!(decimal(1234567890), "1234567890");
    assert_eq!(decimal(u64::MAX), "18446744073709551615");
}

#[test]
fn bucket_paths_lie_below_the_root() {
    let storage = FsStorage::new("/data/root".to_string());
    let expected = std::path::Path::new("/data/root").join("photos");
    assert_eq!(storage.bucket_path("photos"), expected.to_str().unwrap());
    assert_ne!(storage.bucket_path("photos"), "/data/root");
    assert_ne!(storage.bucket_path("photos"), "photos");
    assert_eq!(storage.bucket("photos", true), Ok(FsBucket::new(expected.to_str().unwrap().to_string())));
    assert_eq!(storage.bucket("photos", false), Err(Error::NotFound("photos".to_string())));
    assert_eq!(storage.create_bucket("photos", false), Ok(FsBucket::new(expected.to_str().unwrap().to_string())));
    assert_eq!(storage.create_bucket("photos", true), Err(Error::AlreadyExists("photos".to_string())));
}

#[test]
fn object_paths_lie_in_the_bucket() {
    let bucket = LocalBucket::new("/data/root/photos".to_string());
    let expected = std::path::Path::new("/data/root/photos").join("a.png");
    let expected = expected.to_str().unwrap().to_string();
    assert_eq!(bucket.object_path("a.png"), expected);
    assert_ne!(bucket.object_path("a.png"), "a.png");
    assert_eq!(bucket.object("a.png", true), Ok(LocalObject::new(expected.clone())));
    assert_eq!(bucket.object("a.png", false), Err(Error::NotFound("a.png".to_string())));
    let uploader = bucket.upload_object("a.png");
    assert_eq!(uploader.finish(), (expected, vec![]));
}

#[test]
fn an_uploader_collects_what_is_written() {
    let mut uploader = LocalObjectUploader::new("/tmp/object".to_string());
    uploader.write(&vec![1, 2, 3]);
    uploader.write(&vec![]);
    uploader.write(&vec![4, 5]);
    assert_eq!(uploader.finish(), ("/tmp/object".to_string(), vec![1, 2, 3, 4, 5]));
    let empty = LocalObjectUploader::new("x".to_string());
    assert_eq!(empty.finish(), ("x".to_string(), vec![]));
}

#[test]
fn mem_storage_knows_its_buckets() {
    let mut storage = MemStorage::new();
    assert_eq!(storage.list_buckets(), Vec::<String>::new());
    assert_eq!(storage.bucket("a"), Err(Error::NotFound("bucket 'a'".to_string())));
    assert_eq!(storage.create_bucket("a").unwrap().name(), "a");
    assert_eq!(storage.create_bucket("b").unwrap().name(), "b");
    assert_eq!(storage.create_bucket("a"), Err(Error::AlreadyExist("bucket 'a'".to_string())));
    assert_eq!(storage.list_buckets(), vec!["a".to_string(), "b".to_string()]);
    assert_eq!(storage.bucket("b").unwrap().name(), "b");
    assert_eq!(storage.delete_bucket("a"), Ok(()));
    assert_eq!(storage.delete_bucket("a"), Err(Error::NotFound("bucket 'a'".to_string())));
    assert_eq!(storage.list_buckets(), vec!["b".to_string()]);
    assert_eq!(storage.bucket("a"), Err(Error::NotFound("bucket 'a'".to_string())));
    assert!(storage.create_bucket("a").is_ok());
    assert_eq!(storage.list_buckets(), vec!["b".to_string(), "a".to_string()]);
}

struct Fixed(Vec<u8>);

impl ObjectReader for Fixed {
    fn read_at(&self, offset: i32, size: i32) -> Result<Vec<u8>, Error> {
        Ok(self.0[offset as usize..(offset + size) as usize].to_vec())
    }
}

#[test]
fn object_readers_can_be_written_by_users() {
    assert_eq!(Fixed(vec![1, 2, 3, 4]).read_at(1, 2), Ok(vec![2, 3]));
}

#[test]
fn a_bucket_hands_out_a_cursor() {
    let _store = Store {};
    let _tenant = Tenant {};
    let bucket = Bucket {};
    assert_eq!(bucket.iter(), BucketIter {});
}

#[test]
fn info_takes_no_arguments() {
    let descs = CommandDescs {};
    let mut parse = Parse::new(vec![]);
    assert_eq!(parse_frames(&descs, &mut parse), Ok(Info {}));
    let mut parse = Parse::new(vec![Frame::Bulk(b"memory".to_vec())]);
    assert_eq!(
        parse_frames(&descs, &mut parse),
        Err("wrong number of arguments for 'info' command".to_string())
    );
    assert_eq!(parse.finish(), Err("protocol error; expected end of frame, but there was more".to_string()));
    parse.skip();
    assert_eq!(parse.finish(), Ok(()));
    assert_eq!(parse_frames(&descs, &mut parse), Ok(Info::new()));
    parse.skip();
    assert_eq!(parse.finish(), Ok(()));
}

#[test]
fn info_reports_memory_and_counters() {
    let stats = DbStats { evicted_keys: 1, expired_keys: 20, keyspace_hits: 300, keyspace_misses: 0, num_keys: 12345 };
    let expected = "# Memory\nused_memory:4096\n# Stats\nevicted_keys:1\nexpired_keys:20\nkeyspace_hits:300\nkeyspace_misses:0\n# Keyspace\nkeys:12345\n";
    assert_eq!(Info::new().apply(4096, &stats), Frame::Bulk(expected.as_bytes().to_vec()));
    assert_eq!(Info::new().get_name(), "info");
}

#[test]
fn deleting_a_bucket_goes_page_by_page() {
    assert_eq!(first_token(), None);
    let page = ListPage {
        contents: Some(vec![Some("a".to_string()), None, Some("b".to_string())]),
        is_truncated: true,
        next_continuation_token: Some("t1".to_string()),
    };
    let plan = plan_page(page);
    assert_eq!(plan.delete, vec!["a".to_string(), "b".to_string()]);
    assert_eq!(plan.next, NextStep::List { token: Some("t1".to_string()) });

    let page = ListPage { contents: Some(vec![None]), is_truncated: true, next_continuation_token: None };
    let plan = plan_page(page);
    assert!(plan.delete.is_empty());
    assert_eq!(plan.next, NextStep::List { token: None });

    let page = ListPage { contents: None, is_truncated: false, next_continuation_token: Some("t".to_string()) };
    let plan = plan_page(page);
    assert!(plan.delete.is_empty());
    assert_eq!(plan.next, NextStep::DeleteBucket);

    let page = ListPage { contents: Some(vec![Some("z".to_string())]), is_truncated: false, next_continuation_token: None };
    let plan = plan_page(page);
    assert_eq!(plan.delete, vec!["z".to_string()]);
    assert_eq!(plan.next, NextStep::DeleteBucket);
}

#[test]
fn ranges_name_the_first_and_the_last_byte() {
    assert_eq!(byte_range(0, 1), "bytes=0-0");
    assert_eq!(byte_range(10, 5), "bytes=10-14");
    assert_eq!(byte_range(0, usize::MAX), format!("bytes=0-{}", usize::MAX - 1));
    assert_eq!(checked_byte_range(100, 28), Some("bytes=100-127".to_string()));
    assert_eq!(checked_byte_range(100, 0), None);
    assert_eq!(checked_byte_range(usize::MAX, 2), None);
    assert_eq!(checked_byte_range(usize::MAX, 1), Some(format!("bytes={}-{}", usize::MAX, usize::MAX)));
    assert_eq!(checked_byte_range(1, usize::MAX), Some(format!("bytes=1-{}", usize::MAX)));
    assert_eq!(checked_byte_range(2, usize::MAX), None);
}

#[test]
fn s3_failures_say_what_failed() {
    assert_eq!(size_failure("k", "timeout"), Error::AwsSDK("get object size for 'k' fail, timeout".to_string()));
    assert_eq!(read_failure("gone"), Error::AwsSDK("read object fail, gone".to_string()));
}

#[test]
fn the_last_response_of_a_union_counts() {
    assert_eq!(union_request(5), vec![Union { inner: Some(5) }]);
    assert_eq!(union_response(vec![Union { inner: Some(1) }, Union { inner: Some(2) }]), Ok(2));
    assert_eq!(
        union_response(vec![Union { inner: Some(1) }, Union { inner: None }]),
        Err(engula::stream_engine::Error::InvalidResponse)
    );
    assert_eq!(union_response(Vec::<Union<u8>>::new()), Err(engula::stream_engine::Error::InvalidResponse));
    assert_eq!(union_response(union_request("r")), Ok("r"));
}

#[test]
fn universes_go_to_the_supervisor() {
    let req: BatchRequest<u8, &str> = BatchRequest { databases: vec![], universes: vec!["u1", "u2"] };
    assert_eq!(supervisor_requests(req), Some(vec!["u1", "u2"]));
    let req: BatchRequest<u8, &str> = BatchRequest { databases: vec![], universes: vec![] };
    assert_eq!(supervisor_requests(req), None);
    let res: BatchResponse<u8, &str> = batch_response(Some(vec!["a"]));
    assert_eq!(res, BatchResponse { databases: vec![], universes: vec!["a"] });
    let res: BatchResponse<u8, &str> = batch_response(None);
    assert_eq!(res, BatchResponse { databases: vec![], universes: vec![] });
}
