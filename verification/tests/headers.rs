use nbes::forwarding::header_files::{load_remote_header_files, FileRead, RemoteHeaderFiles};
use nbes::forwarding::service::outbound_metadata;
use nbes::metadata::copy_request_metadata;
use nbes::path::FilePath;
use nbes::status::Code;
use tonic::metadata::{AsciiMetadataKey, BinaryMetadataValue, MetadataMap, MetadataValue};

fn metadata(headers: &[(&'static str, &'static str)]) -> MetadataMap {
    let mut m = MetadataMap::new();
    for (name, value) in headers {
        m.append(*name, MetadataValue::from_static(value));
    }
    m
}

/// The values of a header, in order.
fn values(m: &MetadataMap, name: &str) -> Vec<String> {
    m.get_all(name).iter().map(|v| v.to_str().unwrap().to_string()).collect()
}

#[test]
fn test_stream_preserves_client_headers() {
    let client = metadata(&[("foo", "bar")]);
    let sent = outbound_metadata(&client, &MetadataMap::new(), &MetadataMap::new()).unwrap();
    assert_eq!(1, sent.len());
    assert_eq!("bar", sent.get("foo").unwrap());
}

#[test]
fn test_lifecycle_preserves_client_headers() {
    let client = metadata(&[("moo", "cow")]);
    let backend = metadata(&[("foo", "bar")]);
    let sent = outbound_metadata(&client, &backend, &MetadataMap::new()).unwrap();
    assert_eq!("cow", sent.get("moo").unwrap());
    assert_eq!("bar", sent.get("foo").unwrap());
}

#[test]
fn values_are_added_behind_those_of_the_client() {
    let client = metadata(&[("a", "1"), ("b", "2"), ("a", "3")]);
    let backend = metadata(&[("a", "4"), ("c", "5")]);
    let files = metadata(&[("a", "6")]);
    let sent = outbound_metadata(&client, &backend, &files).unwrap();
    assert_eq!(vec!["1", "3", "4", "6"], values(&sent, "a"));
    assert_eq!(vec!["2"], values(&sent, "b"));
    assert_eq!(vec!["5"], values(&sent, "c"));
    assert_eq!(6, sent.len());
}

#[test]
fn binary_headers_are_copied() {
    let mut from = MetadataMap::new();
    let mut secret = BinaryMetadataValue::from_bytes(&[0, 255, 7]);
    secret.set_sensitive(true);
    from.append_bin("trace-bin", secret);
    from.append_bin("trace-bin", BinaryMetadataValue::from_bytes(b"x"));
    from.append("foo", MetadataValue::from_static("bar"));
    let mut to = metadata(&[("foo", "first")]);
    assert!(copy_request_metadata(&from, &mut to));

    let copied: Vec<_> = to.get_all_bin("trace-bin").iter().collect();
    assert_eq!(2, copied.len());
    assert_eq!(vec![0, 255, 7], copied[0].to_bytes().unwrap().to_vec());
    assert!(copied[0].is_sensitive());
    assert_eq!(b"x".to_vec(), copied[1].to_bytes().unwrap().to_vec());
    assert!(!copied[1].is_sensitive());
    assert_eq!(vec!["first", "bar"], values(&to, "foo"));
}

fn files(entries: &[(&str, &str)]) -> RemoteHeaderFiles {
    let mut files = RemoteHeaderFiles::new();
    for (key, path) in entries {
        assert!(files.insert(key, FilePath::new(path)));
    }
    files
}

#[test]
fn header_files_are_kept_by_name() {
    let mut f = files(&[("Foo", "/a"), ("moo", "/b"), ("FOO", "/c")]);
    assert!(!f.insert("f o", FilePath::new("/d")));
    assert!(!f.insert("foo-bin", FilePath::new("/d")));
    let entries = f.entries();
    assert_eq!(2, entries.len());
    assert_eq!("foo", entries[0].key);
    assert_eq!("/c", entries[0].path.to_string_lossy());
    assert_eq!("moo", entries[1].key);
}

#[test]
fn values_from_files_are_trimmed_and_sensitive() {
    let f = files(&[("foo", "/a"), ("moo", "/b")]);
    let reads = vec![
        FileRead::Text(" secret\t \r\n\u{a0}\n".to_string()),
        FileRead::Text("cow".to_string()),
    ];
    let loaded = load_remote_header_files(&f, &reads, "b1").unwrap();
    assert_eq!(2, loaded.len());
    assert_eq!(" secret", loaded.get("foo").unwrap());
    assert!(loaded.get("foo").unwrap().is_sensitive());
    assert_eq!("cow", loaded.get("moo").unwrap());
    let sent = outbound_metadata(&MetadataMap::new(), &MetadataMap::new(), &loaded).unwrap();
    assert!(sent.get("foo").unwrap().is_sensitive());
}

#[test]
fn a_file_that_cannot_be_read_is_reported() {
    let f = files(&[("foo", "/a"), ("moo", "/b")]);
    let reads =
        vec![FileRead::Failed("gone".to_string()), FileRead::Text("c\u{7f}w".to_string())];
    let status = load_remote_header_files(&f, &reads, "b1").unwrap_err();
    assert_eq!(Code::Internal, status.code);
    assert_eq!("failed to load remote header file /a for backend b1: gone", status.message);
}

#[test]
fn a_file_without_a_header_value_is_reported() {
    let f = files(&[("foo", "/a"), ("moo", "/b")]);
    let reads =
        vec![FileRead::Text("bar".to_string()), FileRead::Text("co\nw".to_string())];
    let status = load_remote_header_files(&f, &reads, "b1").unwrap_err();
    assert_eq!("remote header from file /b for backend b1 has invalid value", status.message);
}

/// A map with so many headers, each of a name of its own.
fn distinct(prefix: &str, n: usize) -> MetadataMap {
    let mut m = MetadataMap::new();
    for i in 0..n {
        let key = AsciiMetadataKey::from_bytes(format!("{prefix}{i}").as_bytes()).unwrap();
        m.append(key, MetadataValue::from_static("x"));
    }
    m
}

#[test]
fn headers_are_copied_as_long_as_the_map_takes_them() {
    let from = distinct("a", 14000);
    let mut to = distinct("b", 8000);
    assert!(copy_request_metadata(&from, &mut to));
    assert_eq!(22000, to.len());

    let mut to = distinct("b", 14000);
    assert!(!copy_request_metadata(&from, &mut to));
    assert!(to.len() > 14000);
    assert!(to.len() < 28000);

    let empty = MetadataMap::new();
    assert!(outbound_metadata(&from, &empty, &distinct("b", 14000)).is_none());
    assert_eq!(14000, outbound_metadata(&from, &empty, &empty).unwrap().len());
}

#[test]
fn header_files_are_loaded_as_long_as_the_map_takes_them() {
    let mut f = RemoteHeaderFiles::new();
    let mut reads = vec![];
    for i in 0..7000 {
        assert!(f.insert(&format!("h{i}"), FilePath::new("/a")));
        reads.push(FileRead::Text("x".to_string()));
    }
    assert_eq!(7000, load_remote_header_files(&f, &reads, "b1").unwrap().len());

    for i in 7000..24577 {
        assert!(f.insert(&format!("h{i}"), FilePath::new("/a")));
        reads.push(FileRead::Text("x".to_string()));
    }
    let status = load_remote_header_files(&f, &reads, "b1").unwrap_err();
    assert_eq!(Code::Internal, status.code);
    assert_eq!("too many remote header files for backend b1", status.message);
}

#[test]
fn paths_need_not_be_text() {
    let path = FilePath::from_bytes(vec![b'/', 0xff, b'a']);
    assert_eq!("/\u{fffd}a", path.to_string_lossy());
    assert_eq!(vec![b'/', 0xff, b'a'], *path.as_bytes());
    assert_eq!("/\u{fc}", FilePath::new("/\u{fc}").to_string_lossy());
}
