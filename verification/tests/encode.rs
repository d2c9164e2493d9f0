use gitsync::{
    CodecError, Compression, Error, Hasher, Limited, NullSink, Object, ObjectType, Sink,
    SplitWrite, StoreError,
};

const BLOB_DATA: &[u8] = b"this is a simple test blob\n";
const BLOB_SHA1: &str = "2bb09523ce4baf1940ee8fef49f6cade5afe3d03";

fn blob(content: &[u8]) -> Object {
    Object::Blob { data: content.to_vec() }
}

#[test]
fn blob_sha1() {
    let obj = Object::deserialize(ObjectType::Blob, BLOB_DATA.into()).unwrap();

    assert_eq!(obj.sha1().unwrap(), BLOB_SHA1);
}

#[test]
fn sha1_of_empty_blob() {
    assert_eq!(blob(b"").sha1().unwrap(), "e69de29bb2d1d6434b8b29ae775ad8c2e48c5391");
}

#[test]
fn sha1_of_blob_with_nul_bytes() {
    assert_eq!(blob(b"a\0b\0").sha1().unwrap(), "f127d72a2e9fade8c0ba54298c824c342eed599f");
}

#[test]
fn sha1_is_the_same_every_time() {
    let obj = blob(b"hello\n");
    assert_eq!(obj.sha1().unwrap(), obj.sha1().unwrap());
    assert_eq!(obj.sha1().unwrap(), blob(b"hello\n").sha1().unwrap());
}

#[test]
fn sha1_of_other_kinds_is_unimplemented() {
    assert_eq!(
        Object::Tree.sha1(),
        Err(Error::Codec(CodecError::UnimplementedStructure { kind: ObjectType::Tree }))
    );
    assert_eq!(
        Object::Commit.sha1(),
        Err(Error::Codec(CodecError::UnimplementedStructure { kind: ObjectType::Commit }))
    );
    assert_eq!(
        Object::Tag.sha1(),
        Err(Error::Codec(CodecError::UnimplementedStructure { kind: ObjectType::Tag }))
    );
}

#[test]
fn digest_covers_the_declared_type() {
    let mut as_blob = Hasher::new();
    as_blob.write_all(b"blob 6\0hello\n").unwrap();
    let mut as_commit = Hasher::new();
    as_commit.write_all(b"commit 6\0hello\n").unwrap();

    let as_blob = as_blob.finalize_hex();
    let as_commit = as_commit.finalize_hex();
    assert_eq!(as_blob, "ce013625030ba8dba906f756967f9e9ca394464a");
    assert_eq!(as_commit, "656d88de433ec9f9c5d4ed9b2c643844127a0fb4");
    assert_ne!(as_blob, as_commit);
    assert_eq!(blob(b"hello\n").sha1().unwrap(), as_blob);
}

#[test]
fn hasher_digests_what_it_was_fed_in_pieces() {
    let mut hasher = Hasher::new();
    assert_eq!(hasher.write(b"a"), Ok(1));
    hasher.write_all(b"bc").unwrap();
    hasher.flush().unwrap();
    assert_eq!(hasher.finalize_hex(), "a9993e364706816aba3e25717850c26c9cd0d89d");
}

#[test]
fn hasher_fed_nothing() {
    let digest = Hasher::new().finalize();
    assert_eq!(digest.len(), 20);
    assert_eq!(gitsync::digest::to_hex(&digest), "da39a3ee5e6b4b0d3255bfef95601890afd80709");
}

#[test]
fn to_hex_is_lower_case_with_two_digits_a_byte() {
    assert_eq!(gitsync::digest::to_hex(&[0x00, 0x0f, 0xa0, 0xff, 0x1b]), "000fa0ff1b");
    assert_eq!(gitsync::digest::to_hex(&[]), "");
}

#[test]
fn type_str_names_the_kind() {
    assert_eq!(blob(b"x").type_str(), "blob");
    assert_eq!(Object::Commit.type_str(), "commit");
    assert_eq!(Object::Tree.type_str(), "tree");
    assert_eq!(Object::Tag.type_str(), "tag");
    assert_eq!(ObjectType::Tag.name(), "tag");
    assert_eq!(blob(b"x").kind(), ObjectType::Blob);
}

#[test]
fn from_token_matches_the_four_names() {
    assert_eq!(ObjectType::from_token(b"blob"), Some(ObjectType::Blob));
    assert_eq!(ObjectType::from_token(b"commit"), Some(ObjectType::Commit));
    assert_eq!(ObjectType::from_token(b"TREE"), Some(ObjectType::Tree));
    assert_eq!(ObjectType::from_token(b"tAg"), Some(ObjectType::Tag));
    assert_eq!(ObjectType::from_token(b"ta"), None);
    assert_eq!(ObjectType::from_token(b"tags"), None);
    assert_eq!(ObjectType::from_token(b""), None);
    assert_eq!(ObjectType::from_token(b"\x42lo\x02"), None);
}

#[test]
fn serialize_writes_the_content_alone() {
    let mut out = b"before".to_vec();
    blob(b"hello\n").serialize(&mut out).unwrap();
    assert_eq!(out, b"beforehello\n");
}

#[test]
fn serialize_other_kinds_writes_nothing() {
    let mut out = b"before".to_vec();
    assert_eq!(
        Object::Tree.serialize(&mut out),
        Err(Error::Codec(CodecError::UnimplementedStructure { kind: ObjectType::Tree }))
    );
    assert_eq!(out, b"before");
    assert_eq!(
        Object::Commit.serialize_with_header(&mut out),
        Err(Error::Codec(CodecError::UnimplementedStructure { kind: ObjectType::Commit }))
    );
    assert_eq!(out, b"before");
}

#[test]
fn serialize_with_header_writes_the_canonical_encoding() {
    let mut out = Vec::new();
    let sha1 = blob(b"hello\n").serialize_with_header(&mut out).unwrap();
    assert_eq!(out, b"blob 6\0hello\n");
    assert_eq!(sha1, "ce013625030ba8dba906f756967f9e9ca394464a");
}

#[test]
fn serialize_with_header_of_empty_blob() {
    let mut out = Vec::new();
    let sha1 = blob(b"").serialize_with_header(&mut out).unwrap();
    assert_eq!(out, b"blob 0\0");
    assert_eq!(sha1, "e69de29bb2d1d6434b8b29ae775ad8c2e48c5391");
}

#[test]
fn serialize_with_header_into_nothing() {
    let mut nowhere = NullSink::new();
    assert_eq!(blob(BLOB_DATA).serialize_with_header(&mut nowhere).unwrap(), BLOB_SHA1);
}

#[test]
fn encode_then_decode_gives_the_blob_back() {
    let contents: [&[u8]; 5] = [b"", b"hello\n", b"a\0b\0", b" \0 \0", &[0u8; 1000]];
    for content in contents {
        let mut out = Vec::new();
        blob(content).serialize_with_header(&mut out).unwrap();
        assert_eq!(Object::deserialize_with_header(&out), Ok(blob(content)));
    }
}

#[test]
fn store_then_load_gives_the_blob_back() {
    let contents: [&[u8]; 5] = [b"", b"hello\n", b"a\0b\0", b" \0 \0", &[7u8; 100_000]];
    for content in contents {
        let (sha1, data) = blob(content).serialize_zlib().unwrap();
        assert_eq!(sha1, blob(content).sha1().unwrap());
        assert_eq!(Object::deserialize_zlib(&data), Ok(blob(content)));
    }
}

#[test]
fn store_then_load_at_every_level() {
    for level in 0..=9 {
        let comp = Compression::new(level).unwrap();
        assert_eq!(comp.level(), level);
        let (sha1, data) = blob(BLOB_DATA).serialize_zlib_comp(comp).unwrap();
        assert_eq!(sha1, BLOB_SHA1);
        assert_eq!(Object::deserialize_zlib(&data), Ok(blob(BLOB_DATA)));
    }
}

#[test]
fn stored_bytes_are_a_zlib_stream_and_not_the_plain_encoding() {
    let (_, data) = blob(BLOB_DATA).serialize_zlib().unwrap();
    let mut plain = Vec::new();
    blob(BLOB_DATA).serialize_with_header(&mut plain).unwrap();
    assert_ne!(data, plain);
    assert_eq!(data[0], 0x78);
    assert_eq!(Object::deserialize_with_header(&data).is_err(), true);
}

#[test]
fn stored_bytes_shrink_what_repeats() {
    let (_, data) = blob(&[7u8; 100_000]).serialize_zlib_comp(Compression::best()).unwrap();
    assert!(data.len() < 1000);
    let (_, raw) = blob(&[7u8; 100_000]).serialize_zlib_comp(Compression::none()).unwrap();
    assert!(raw.len() > 100_000);
}

#[test]
fn serialize_zlib_of_other_kinds_is_unimplemented() {
    assert_eq!(
        Object::Tag.serialize_zlib(),
        Err(Error::Codec(CodecError::UnimplementedStructure { kind: ObjectType::Tag }))
    );
}

#[test]
fn compression_levels() {
    assert_eq!(Compression::new(10), None);
    assert_eq!(Compression::new(u32::MAX), None);
    assert_eq!(Compression::none().level(), 0);
    assert_eq!(Compression::fast().level(), 1);
    assert_eq!(Compression::best().level(), 9);
    assert_eq!(Compression::default().level(), 6);
    assert_eq!(Compression::new(6), Some(Compression::default()));
}

#[test]
fn split_write_hands_each_write_to_both_sinks() {
    let mut first = b"x".to_vec();
    let mut second = Vec::new();
    let mut split = SplitWrite::new(&mut first, &mut second);
    assert_eq!(split.write(b"abc"), Ok(3));
    split.write_all(b"def").unwrap();
    split.flush().unwrap();
    assert_eq!(first, b"xabcdef");
    assert_eq!(second, b"abcdef");
}

#[test]
fn split_write_hashes_what_it_writes() {
    let mut out = Vec::new();
    let mut hasher = Hasher::new();
    let mut split = SplitWrite::new(&mut out, &mut hasher);
    split.write_all(b"ab").unwrap();
    assert_eq!(split.write(b"c"), Ok(1));
    assert_eq!(out, b"abc");
    assert_eq!(hasher.finalize_hex(), "a9993e364706816aba3e25717850c26c9cd0d89d");
}

#[test]
fn split_write_in_front_of_another() {
    let mut a = Vec::new();
    let mut b = Vec::new();
    let mut c = Vec::new();
    let mut inner = SplitWrite::new(&mut b, &mut c);
    let mut outer = SplitWrite::new(&mut a, &mut inner);
    outer.write_all(b"abc").unwrap();
    assert_eq!(a, b"abc");
    assert_eq!(b, b"abc");
    assert_eq!(c, b"abc");
}

#[test]
fn reconcile_agreeing_and_differing_counts() {
    assert_eq!(gitsync::split_write::reconcile(3, 3), Ok(3));
    assert_eq!(gitsync::split_write::reconcile(0, 0), Ok(0));
    assert_eq!(
        gitsync::split_write::reconcile(3, 2),
        Err(Error::SinkDivergence { first: 3, second: 2 })
    );
    assert_eq!(
        gitsync::split_write::reconcile(0, 1),
        Err(Error::SinkDivergence { first: 0, second: 1 })
    );
}

#[test]
fn null_sink_takes_everything() {
    let mut nowhere = NullSink::new();
    assert_eq!(nowhere.write(b"abc"), Ok(3));
    assert_eq!(nowhere.write_all(b"abc"), Ok(()));
    assert_eq!(nowhere.flush(), Ok(()));
}

#[test]
fn limited_sink_takes_what_fits() {
    let mut sink = Limited::new(4);
    assert_eq!(sink.write(b"abc"), Ok(3));
    assert_eq!(sink.write(b"def"), Ok(1));
    assert_eq!(sink.write(b"g"), Ok(0));
    assert_eq!(sink.flush(), Ok(()));
    assert_eq!(sink.taken(), b"abcd");
}

#[test]
fn limited_sink_fails_a_write_all_that_does_not_fit() {
    let mut sink = Limited::new(4);
    assert_eq!(sink.write_all(b"abc"), Ok(()));
    assert_eq!(sink.write_all(b"def"), Err(Error::Store(StoreError::IOFailure)));
    assert_eq!(sink.taken(), b"abcd");
    assert_eq!(sink.write_all(b""), Ok(()));
}

#[test]
fn split_write_reports_sinks_that_take_different_counts() {
    let mut first = Vec::new();
    let mut second = Limited::new(2);
    let mut split = SplitWrite::new(&mut first, &mut second);
    assert_eq!(split.write(b"abc"), Err(Error::SinkDivergence { first: 3, second: 2 }));
    assert_eq!(first, b"abc");
    assert_eq!(second.taken(), b"ab");
}

#[test]
fn split_write_agrees_where_both_sinks_take_the_same_part() {
    let mut first = Limited::new(2);
    let mut second = Limited::new(2);
    let mut split = SplitWrite::new(&mut first, &mut second);
    assert_eq!(split.write(b"abc"), Ok(2));
    assert_eq!(split.write(b"c"), Ok(0));
    assert_eq!(first.taken(), b"ab");
    assert_eq!(second.taken(), b"ab");
}

#[test]
fn split_write_all_fails_with_the_sink_that_fails() {
    let mut first = Vec::new();
    let mut second = Limited::new(2);
    let mut split = SplitWrite::new(&mut first, &mut second);
    assert_eq!(split.write_all(b"abcde"), Err(Error::Store(StoreError::IOFailure)));
    assert_eq!(first, b"abcde");
    assert_eq!(second.taken(), b"ab");
}

#[test]
fn serialize_with_header_into_a_sink_that_is_too_small() {
    let mut sink = Limited::new(9);
    assert_eq!(
        blob(b"hello\n").serialize_with_header(&mut sink),
        Err(Error::Store(StoreError::IOFailure))
    );
    assert_eq!(sink.taken(), b"blob 6\0he");

    let mut sink = Limited::new(13);
    assert_eq!(
        blob(b"hello\n").serialize_with_header(&mut sink).unwrap(),
        "ce013625030ba8dba906f756967f9e9ca394464a"
    );
    assert_eq!(sink.taken(), b"blob 6\0hello\n");
}
