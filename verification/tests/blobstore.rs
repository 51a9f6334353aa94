use omnia::blobstore::{
    container_not_found, same_object, source_not_found, BlobstoreDefault, InMemContainer, ObjectId,
    OutgoingValue, StreamObjectNames,
};

fn id(container: &str, object: &str) -> ObjectId {
    ObjectId { container: container.to_string(), object: object.to_string() }
}

fn names(list: &[&str]) -> Vec<String> {
    list.iter().map(|s| s.to_string()).collect()
}

#[test]
fn same_object_detects_identical_ids() {
    let a = id("bucket", "blob");
    let b = id("bucket", "blob");
    assert!(same_object(&a, &b));
}

#[test]
fn same_object_rejects_different_ids() {
    let a = id("bucket", "blob");
    let b = id("bucket", "blob-2");
    assert!(!same_object(&a, &b));
}

#[test]
fn same_object_rejects_other_container() {
    assert!(!same_object(&id("a", "blob"), &id("b", "blob")));
}

#[test]
fn source_not_found_message() {
    assert_eq!(source_not_found(&id("src", "file.txt")), "source object not found: src/file.txt");
}

#[test]
fn stream_object_names_read_all_at_once() {
    let mut stream = StreamObjectNames::new(names(&["a", "b", "c"]));
    let (batch, done) = stream.read(100);
    assert_eq!(batch, vec!["a", "b", "c"]);
    assert!(done);
}

#[test]
fn stream_object_names_paginated() {
    let mut stream = StreamObjectNames::new(names(&["a", "b", "c", "d", "e"]));
    let mut all = Vec::new();
    let page_size = 2_usize;
    loop {
        let (batch, done) = stream.read(page_size);
        all.extend(batch);
        if done {
            break;
        }
    }
    assert_eq!(all, vec!["a", "b", "c", "d", "e"]);
}

#[test]
fn stream_object_names_empty() {
    let mut stream = StreamObjectNames::new(vec![]);
    let (batch, done) = stream.read(100);
    assert!(batch.is_empty());
    assert!(done);
}

#[test]
fn stream_object_names_skip() {
    let mut stream = StreamObjectNames::new(names(&["a", "b", "c", "d"]));
    let (skip, _) = stream.skip(2);
    assert_eq!(skip, 2);
    assert_eq!(stream.remaining(), vec!["c", "d"]);
    let (batch, _) = stream.read(100);
    assert_eq!(batch, vec!["c", "d"]);
}

#[test]
fn stream_object_names_skip_past_end() {
    let mut stream = StreamObjectNames::new(names(&["a", "b"]));
    assert_eq!(stream.skip(5), (2, true));
    assert_eq!(stream.offset(), 2);
    assert_eq!(stream.read(3), (vec![], true));
}

#[test]
fn outgoing_value_write_body_is_one_shot() {
    let mut outgoing = OutgoingValue::new(16);
    assert_eq!(outgoing.take_write_body(), Ok(()));
    assert_eq!(outgoing.take_write_body(), Err(()));
}

#[test]
fn outgoing_value_finish_requires_write_body() {
    let mut outgoing = OutgoingValue::new(16);
    assert_eq!(outgoing.finalize(), Err("outgoing value write body was never requested"));
}

#[test]
fn outgoing_value_finish_is_single_use() {
    let mut outgoing = OutgoingValue::new(16);
    assert_eq!(outgoing.take_write_body(), Ok(()));
    assert_eq!(outgoing.finalize(), Ok(()));
    assert_eq!(outgoing.finalize(), Err("outgoing value already finished"));
}

#[test]
fn outgoing_value_body_refused_after_finish() {
    let mut outgoing = OutgoingValue::new(8);
    assert_eq!(outgoing.capacity(), 8);
    outgoing.take_write_body().unwrap();
    outgoing.finalize().unwrap();
    assert_eq!(outgoing.take_write_body(), Err(()));
}

fn s(x: &str) -> String {
    x.to_string()
}

#[test]
fn object_crud() {
    let mut container = InMemContainer::new(s("obj-crud"), 0);
    container.write_data(s("k1"), b"v1".to_vec());
    assert_eq!(container.get_data(&s("k1")), Some(b"v1".to_vec()));

    assert!(container.has_object(&s("k1")));
    assert!(!container.has_object(&s("k2")));

    container.write_data(s("k2"), b"v2".to_vec());
    let mut objects = container.list_objects();
    objects.sort();
    assert_eq!(objects, vec!["k1", "k2"]);

    container.delete_object(&s("k1"));
    assert!(!container.has_object(&s("k1")));
}

#[test]
fn object_info_valid() {
    let mut container = InMemContainer::new(s("info-test"), 0);
    let payload = b"hello world";
    container.write_data(s("doc.txt"), payload.to_vec());

    let meta = container.object_info(&s("doc.txt"), 1_700_000_000).expect("object_info");
    assert_eq!(meta.name, "doc.txt");
    assert_eq!(meta.container, "info-test");
    assert_eq!(meta.size, payload.len() as u64);
    assert_eq!(meta.created_at, 1_700_000_000);
}

#[test]
fn get_nonexistent_object() {
    let container = InMemContainer::new(s("miss"), 0);
    assert_eq!(container.get_data(&s("ghost")), None);
}

#[test]
fn object_info_nonexistent() {
    let container = InMemContainer::new(s("miss-info"), 0);
    assert!(container.object_info(&s("ghost"), 0).is_none());
}

#[test]
fn overwrite_object() {
    let mut container = InMemContainer::new(s("overwrite"), 0);
    container.write_data(s("key"), b"first".to_vec());
    container.write_data(s("key"), b"second".to_vec());
    assert_eq!(container.get_data(&s("key")), Some(b"second".to_vec()));
    assert_eq!(container.list_objects(), vec!["key"]);
}

#[test]
fn delete_nonexistent_object() {
    let mut container = InMemContainer::new(s("del-miss"), 0);
    container.delete_object(&s("nope"));
    assert!(container.list_objects().is_empty());
}

#[test]
fn empty_container_list() {
    let container = InMemContainer::new(s("empty"), 0);
    assert!(container.list_objects().is_empty());
}

#[test]
fn copy_object_across_containers() {
    let mut src = InMemContainer::new(s("src-bucket"), 0);
    let mut dest = InMemContainer::new(s("dest-bucket"), 0);
    src.write_data(s("file.txt"), b"payload".to_vec());

    let data = src.get_data(&s("file.txt"));
    assert!(data.is_some());
    dest.write_data(s("file-copy.txt"), data.unwrap());

    assert_eq!(dest.get_data(&s("file-copy.txt")), Some(b"payload".to_vec()));
    assert!(src.has_object(&s("file.txt")));
}

#[test]
fn copy_object_within_same_container() {
    let mut ctr = InMemContainer::new(s("same-bucket"), 0);
    ctr.write_data(s("original"), b"data".to_vec());
    let data = ctr.get_data(&s("original"));
    ctr.write_data(s("duplicate"), data.unwrap());
    assert_eq!(ctr.get_data(&s("duplicate")), Some(b"data".to_vec()));
    assert!(ctr.has_object(&s("original")));
}

#[test]
fn move_object_across_containers() {
    let mut src = InMemContainer::new(s("move-src"), 0);
    let mut dest = InMemContainer::new(s("move-dest"), 0);
    src.write_data(s("doc.bin"), b"binary-data".to_vec());
    let data = src.get_data(&s("doc.bin"));
    dest.write_data(s("doc-moved.bin"), data.unwrap());
    src.delete_object(&s("doc.bin"));
    assert_eq!(dest.get_data(&s("doc-moved.bin")), Some(b"binary-data".to_vec()));
    assert!(!src.has_object(&s("doc.bin")));
}

#[test]
fn move_object_within_same_container() {
    let mut ctr = InMemContainer::new(s("rename-bucket"), 0);
    ctr.write_data(s("old-name"), b"content".to_vec());
    let data = ctr.get_data(&s("old-name"));
    ctr.write_data(s("new-name"), data.unwrap());
    ctr.delete_object(&s("old-name"));
    assert_eq!(ctr.get_data(&s("new-name")), Some(b"content".to_vec()));
    assert!(!ctr.has_object(&s("old-name")));
}

#[test]
fn container_name_and_info() {
    let ctr = InMemContainer::new(s("bucket"), 42);
    assert_eq!(ctr.name(), "bucket");
    let info = ctr.info();
    assert_eq!(info.name, "bucket");
    assert_eq!(info.created_at, 42);
}

#[test]
fn delete_keeps_other_objects() {
    let mut ctr = InMemContainer::new(s("b"), 0);
    ctr.write_data(s("a"), vec![1]);
    ctr.write_data(s("b"), vec![2]);
    ctr.write_data(s("c"), vec![3]);
    ctr.delete_object(&s("b"));
    assert_eq!(ctr.get_data(&s("a")), Some(vec![1]));
    assert_eq!(ctr.get_data(&s("c")), Some(vec![3]));
    let mut all = ctr.list_objects();
    all.sort();
    assert_eq!(all, vec!["a", "c"]);
}

#[test]
fn container_crud() {
    let mut ctx = BlobstoreDefault::new();
    ctx.create_container(s("bucket"), 1);
    assert!(ctx.container_exists(&s("bucket")));
    let retrieved = ctx.get_container(&s("bucket")).expect("get");
    assert_eq!(retrieved.name(), "bucket");
    ctx.delete_container(&s("bucket"));
    assert!(!ctx.container_exists(&s("bucket")));
    ctx.delete_container(&s("bucket"));
}

#[test]
fn get_nonexistent_container() {
    let ctx = BlobstoreDefault::new();
    let result = ctx.get_container(&s("no-such-container"));
    assert_eq!(result.err(), Some(s("container not found: no-such-container")));
    assert_eq!(container_not_found(&s("x")), "container not found: x");
}

fn store_with(containers: &[&str]) -> BlobstoreDefault {
    let mut ctx = BlobstoreDefault::new();
    for c in containers {
        ctx.create_container(s(c), 0);
    }
    ctx
}

fn read(ctx: &BlobstoreDefault, container: &str, object: &str) -> Option<Vec<u8>> {
    ctx.get_container(&s(container)).expect("container").get_data(&s(object))
}

#[test]
fn create_container_overwrites_existing() {
    let mut ctx = store_with(&["reused"]);
    seed(&mut ctx, "reused", "stale", b"old");
    ctx.create_container(s("reused"), 5);
    let fresh = ctx.get_container(&s("reused")).unwrap();
    assert!(fresh.list_objects().is_empty(), "re-created container should be empty");
    assert_eq!(fresh.info().created_at, 5);
}

#[test]
fn store_copy_object_across_containers() {
    let mut ctx = store_with(&["src-bucket", "dest-bucket"]);
    seed(&mut ctx, "src-bucket", "file.txt", b"payload");
    ctx.copy_object(id("src-bucket", "file.txt"), id("dest-bucket", "file-copy.txt")).expect("copy");
    assert_eq!(read(&ctx, "dest-bucket", "file-copy.txt"), Some(b"payload".to_vec()));
    assert_eq!(read(&ctx, "src-bucket", "file.txt"), Some(b"payload".to_vec()));
}

#[test]
fn store_move_object_within_same_container() {
    let mut ctx = store_with(&["rename-bucket"]);
    seed(&mut ctx, "rename-bucket", "old-name", b"content");
    ctx.move_object(id("rename-bucket", "old-name"), id("rename-bucket", "new-name")).expect("move");
    assert_eq!(read(&ctx, "rename-bucket", "new-name"), Some(b"content".to_vec()));
    assert_eq!(read(&ctx, "rename-bucket", "old-name"), None);
}

#[test]
fn store_move_object_across_containers() {
    let mut ctx = store_with(&["a", "b"]);
    seed(&mut ctx, "a", "k", b"v");
    seed(&mut ctx, "b", "other", b"w");
    ctx.move_object(id("a", "k"), id("b", "k")).expect("move");
    assert_eq!(read(&ctx, "b", "k"), Some(b"v".to_vec()));
    assert_eq!(read(&ctx, "a", "k"), None);
    assert_eq!(read(&ctx, "b", "other"), Some(b"w".to_vec()));
}

#[test]
fn store_move_onto_itself_keeps_data() {
    let mut ctx = store_with(&["a"]);
    seed(&mut ctx, "a", "k", b"v");
    ctx.move_object(id("a", "k"), id("a", "k")).expect("no-op move");
    assert_eq!(read(&ctx, "a", "k"), Some(b"v".to_vec()));
}

#[test]
fn store_transfer_errors() {
    let mut ctx = store_with(&["a"]);
    seed(&mut ctx, "a", "k", b"v");
    assert_eq!(
        ctx.copy_object(id("missing", "k"), id("a", "x")).unwrap_err(),
        "container not found: missing"
    );
    assert_eq!(
        ctx.copy_object(id("a", "nope"), id("a", "x")).unwrap_err(),
        "source object not found: a/nope"
    );
    assert_eq!(
        ctx.move_object(id("a", "k"), id("gone", "x")).unwrap_err(),
        "container not found: gone"
    );
    assert_eq!(read(&ctx, "a", "k"), Some(b"v".to_vec()));
    assert_eq!(read(&ctx, "a", "x"), None);
}

fn seed(ctx: &mut BlobstoreDefault, container: &str, object: &str, data: &[u8]) {
    ctx.write_data(&s(container), s(object), data.to_vec()).expect("seed");
}

#[test]
fn store_write_and_delete_objects() {
    let mut ctx = store_with(&["a"]);
    assert_eq!(
        ctx.write_data(&s("b"), s("k"), b"v".to_vec()).unwrap_err(),
        "container not found: b"
    );
    seed(&mut ctx, "a", "k", b"v");
    assert_eq!(read(&ctx, "a", "k"), Some(b"v".to_vec()));
    ctx.delete_object(&s("a"), &s("k")).expect("delete");
    assert_eq!(read(&ctx, "a", "k"), None);
    assert_eq!(ctx.delete_object(&s("b"), &s("k")).unwrap_err(), "container not found: b");
}

#[test]
fn store_delete_objects_and_clear() {
    let mut ctx = store_with(&["a", "b"]);
    seed(&mut ctx, "a", "x", b"1");
    seed(&mut ctx, "a", "y", b"2");
    seed(&mut ctx, "a", "z", b"3");
    seed(&mut ctx, "b", "x", b"4");
    ctx.delete_objects(&s("a"), names(&["x", "z", "missing"])).expect("delete many");
    assert_eq!(read(&ctx, "a", "x"), None);
    assert_eq!(read(&ctx, "a", "y"), Some(b"2".to_vec()));
    assert_eq!(read(&ctx, "a", "z"), None);
    assert_eq!(read(&ctx, "b", "x"), Some(b"4".to_vec()));
    ctx.clear(&s("b")).expect("clear");
    assert!(ctx.get_container(&s("b")).unwrap().list_objects().is_empty());
    assert_eq!(read(&ctx, "a", "y"), Some(b"2".to_vec()));
    assert_eq!(ctx.clear(&s("c")).unwrap_err(), "container not found: c");
}

#[test]
fn container_delete_objects_and_clear() {
    let mut c = InMemContainer::new(s("c"), 3);
    c.write_data(s("a"), b"1".to_vec());
    c.write_data(s("b"), b"2".to_vec());
    c.delete_objects(&names(&["a"]));
    assert!(!c.has_object(&s("a")));
    assert!(c.has_object(&s("b")));
    c.clear();
    assert!(c.list_objects().is_empty());
    assert_eq!(c.name(), "c");
}
