use zim::{Cluster, DirectoryEntry, ErrorKind, MimeType, Target, Zim};

const XZ_HELLO: [u8; 68] = [
    253, 55, 122, 88, 90, 0, 0, 1, 105, 34, 222, 54, 2, 0, 33, 1, 22, 0, 0, 0, 116, 47, 229, 163,
    1, 0, 12, 8, 0, 0, 0, 13, 0, 0, 0, 104, 101, 108, 108, 111, 0, 0, 0, 0, 35, 35, 10, 84, 0, 1,
    33, 13, 117, 220, 168, 210, 144, 66, 153, 13, 1, 0, 0, 0, 0, 1, 89, 90,
];

fn entry_bytes(mime: u16, ns: u8, rev: u32, payload: &[u32], url: &[u8], title: &[u8]) -> Vec<u8> {
    let mut v = Vec::new();
    v.extend_from_slice(&mime.to_le_bytes());
    v.push(0);
    v.push(ns);
    v.extend_from_slice(&rev.to_le_bytes());
    for p in payload {
        v.extend_from_slice(&p.to_le_bytes());
    }
    v.extend_from_slice(url);
    v.push(0);
    v.extend_from_slice(title);
    v.push(0);
    v
}

fn stored_cluster(blobs: &[&[u8]]) -> Vec<u8> {
    let mut v = vec![1u8];
    let mut off = 4 * (blobs.len() as u32 + 1);
    for b in blobs {
        v.extend_from_slice(&off.to_le_bytes());
        off += b.len() as u32;
    }
    v.extend_from_slice(&off.to_le_bytes());
    for b in blobs {
        v.extend_from_slice(b);
    }
    v
}

/// An archive laid out as header, mime table, url table, title table, cluster
/// table, entries, clusters, checksum.
fn archive(mimes: &[&str], entries: &[Vec<u8>], clusters: &[Vec<u8>], main_page: u32) -> Vec<u8> {
    let mut mime_bytes = Vec::new();
    for m in mimes {
        mime_bytes.extend_from_slice(m.as_bytes());
        mime_bytes.push(0);
    }
    mime_bytes.push(0);
    let n = entries.len() as u64;
    let url_off = 80 + mime_bytes.len() as u64;
    let title_off = url_off + 8 * n;
    let cluster_off = title_off + 4 * n;
    let mut pos = cluster_off + 8 * clusters.len() as u64;
    let mut url_list = Vec::new();
    for e in entries {
        url_list.push(pos);
        pos += e.len() as u64;
    }
    let mut cluster_list = Vec::new();
    for c in clusters {
        cluster_list.push(pos);
        pos += c.len() as u64;
    }
    let checksum = pos;
    let mut v = Vec::new();
    v.extend_from_slice(&72173914u32.to_le_bytes());
    v.extend_from_slice(&5u32.to_le_bytes());
    v.extend_from_slice(&1u64.to_le_bytes());
    v.extend_from_slice(&2u64.to_le_bytes());
    v.extend_from_slice(&(n as u32).to_le_bytes());
    v.extend_from_slice(&(clusters.len() as u32).to_le_bytes());
    v.extend_from_slice(&url_off.to_le_bytes());
    v.extend_from_slice(&title_off.to_le_bytes());
    v.extend_from_slice(&cluster_off.to_le_bytes());
    v.extend_from_slice(&80u64.to_le_bytes());
    v.extend_from_slice(&main_page.to_le_bytes());
    v.extend_from_slice(&0xffffffffu32.to_le_bytes());
    v.extend_from_slice(&checksum.to_le_bytes());
    assert_eq!(v.len(), 80);
    v.extend_from_slice(&mime_bytes);
    for o in &url_list {
        v.extend_from_slice(&o.to_le_bytes());
    }
    for i in (0..n as u32).rev() {
        v.extend_from_slice(&i.to_le_bytes());
    }
    for o in &cluster_list {
        v.extend_from_slice(&o.to_le_bytes());
    }
    for e in entries {
        v.extend_from_slice(e);
    }
    for c in clusters {
        v.extend_from_slice(c);
    }
    v.extend_from_slice(&[0u8; 16]);
    v
}

fn sample() -> Vec<u8> {
    let entries = vec![
        entry_bytes(0, b'A', 3, &[0, 0], b"Apple", b"The apple"),
        entry_bytes(0xffff, b'A', 0, &[0], b"Banana", b"Banana redirect"),
        entry_bytes(1, b'I', 7, &[1, 0], b"Cherry.png", b"Cherry"),
    ];
    let mut compressed = vec![4u8];
    compressed.extend_from_slice(&XZ_HELLO);
    let clusters = vec![stored_cluster(&[b"<p>apple</p>", b"", b"xyz"]), compressed];
    archive(&["text/html", "image/png"], &entries, &clusters, 0xffffffff)
}

fn kind_of(r: Result<Zim<'_>, zim::ParsingError>) -> ErrorKind {
    match r {
        Ok(_) => panic!("archive opened"),
        Err(e) => e.kind,
    }
}

#[test]
fn test_zim() {
    let d = sample();
    let z = Zim::new(&d).ok().unwrap();
    assert_eq!(z.article_count(), 3);
    assert_eq!(z.cluster_count(), 2);
    let e = z.get_by_url_index(0).unwrap();
    assert_eq!(e.url, "Apple");
    assert_eq!(e.title, "The apple");
    assert_eq!(e.target, Some(Target::Cluster(0, 0)));
    let c = z.get_cluster(0).unwrap();
    assert_eq!(c.get_blob(0).unwrap(), b"<p>apple</p>");
}

#[test]
fn main_page_absent() {
    let d = sample();
    let z = Zim::new(&d).ok().unwrap();
    assert_eq!(z.article_count(), 3);
    assert_eq!(z.main_page_index(), None);
    assert_eq!(z.layout_page_index(), None);
}

#[test]
fn main_page_present() {
    let entries = vec![entry_bytes(0xfffe, b'A', 0, &[], b"a", b"")];
    let d = archive(&["text/html"], &entries, &[], 0);
    let z = Zim::new(&d).ok().unwrap();
    assert_eq!(z.main_page_index(), Some(0));
}

#[test]
fn mime_table_offset_is_header_size() {
    let d = sample();
    let z = Zim::new(&d).ok().unwrap();
    assert_eq!(z.mime_table_offset(), 80);
}

#[test]
fn redirect_entry_has_one_target_field() {
    let d = sample();
    let z = Zim::new(&d).ok().unwrap();
    let e = z.get_by_url_index(1).unwrap();
    assert_eq!(e.mime_type, MimeType::Redirect);
    assert_eq!(e.target, Some(Target::Redirect(0)));
    assert_eq!(e.url, "Banana");
    assert_eq!(e.title, "Banana redirect");
    assert_eq!(e.namespace, 'A');
}

#[test]
fn content_entry_fields() {
    let d = sample();
    let z = Zim::new(&d).ok().unwrap();
    let e = z.get_by_url_index(2).unwrap();
    assert_eq!(e.mime_type, MimeType::Type("image/png".to_string()));
    assert_eq!(e.namespace, 'I');
    assert_eq!(e.revision, 7);
    assert_eq!(e.target, Some(Target::Cluster(1, 0)));
    assert_eq!(e.url, "Cherry.png");
    assert_eq!(e.title, "Cherry");
}

#[test]
fn link_target_and_deleted_entries_have_no_target() {
    let entries = vec![
        entry_bytes(0xfffe, b'A', 1, &[], b"a", b"A"),
        entry_bytes(0xfffd, b'B', 2, &[], b"b", b"B"),
    ];
    let d = archive(&["text/html"], &entries, &[], 0xffffffff);
    let z = Zim::new(&d).ok().unwrap();
    let a = z.get_by_url_index(0).unwrap();
    assert_eq!(a.mime_type, MimeType::LinkTarget);
    assert_eq!(a.target, None);
    assert_eq!(a.url, "a");
    let b = z.get_by_url_index(1).unwrap();
    assert_eq!(b.mime_type, MimeType::DeletedEntry);
    assert_eq!(b.target, None);
    assert_eq!(b.title, "B");
}

#[test]
fn url_index_out_of_range() {
    let d = sample();
    let z = Zim::new(&d).ok().unwrap();
    assert!(z.get_by_url_index(3).is_none());
    assert!(z.get_cluster(2).is_none());
}

#[test]
fn mimetype_lookup() {
    let d = sample();
    let z = Zim::new(&d).ok().unwrap();
    assert_eq!(z.get_mimetype(0xffff), Some(MimeType::Redirect));
    assert_eq!(z.get_mimetype(0xfffe), Some(MimeType::LinkTarget));
    assert_eq!(z.get_mimetype(0xfffd), Some(MimeType::DeletedEntry));
    assert_eq!(z.get_mimetype(1), Some(MimeType::Type("image/png".to_string())));
    assert_eq!(z.get_mimetype(2), None);
}

#[test]
fn title_order_table() {
    let d = sample();
    let z = Zim::new(&d).ok().unwrap();
    assert_eq!(z.url_index_by_title(0), Some(2));
    assert_eq!(z.url_index_by_title(2), Some(0));
    assert_eq!(z.url_index_by_title(3), None);
}

#[test]
fn compressed_cluster_first_offset_below_body_length() {
    let d = sample();
    let z = Zim::new(&d).ok().unwrap();
    let c = z.get_cluster(1).unwrap();
    assert_eq!(c.comp_type(), 4);
    let body = c.data();
    assert_eq!(body.len(), 13);
    let first = u32::from_le_bytes([body[0], body[1], body[2], body[3]]);
    assert!((first as usize) < body.len());
    assert_eq!(c.blob_count(), 2);
    assert_eq!(c.get_blob(0).unwrap(), b"hello");
    assert_eq!(c.get_blob(1).unwrap(), b"");
}

#[test]
fn stored_cluster_blobs_rebuild_body() {
    let d = sample();
    let z = Zim::new(&d).ok().unwrap();
    let c = z.get_cluster(0).unwrap();
    assert_eq!(c.comp_type(), 1);
    assert_eq!(c.blob_count(), 4);
    assert_eq!(c.get_blob(0).unwrap().len(), 12);
    assert_eq!(c.get_blob(1).unwrap().len(), 0);
    assert_eq!(c.get_blob(2).unwrap(), b"xyz");
    let mut joined = Vec::new();
    for i in 0..4 {
        joined.extend_from_slice(c.get_blob(i).unwrap());
    }
    assert_eq!(&joined[..], &c.data()[16..]);
    assert!(c.get_blob(4).is_none());
}

#[test]
fn unsorted_blob_offsets_are_refused() {
    let mut body = vec![0u8];
    body.extend_from_slice(&8u32.to_le_bytes());
    body.extend_from_slice(&4u32.to_le_bytes());
    body.extend_from_slice(&12u32.to_le_bytes());
    let r = Cluster::decode(&body, 0, body.len() as u64, 1000);
    assert_eq!(r.err().unwrap().kind, ErrorKind::Format);
}

#[test]
fn closing_offset_past_body_is_refused() {
    let mut body = vec![1u8];
    body.extend_from_slice(&8u32.to_le_bytes());
    body.extend_from_slice(&100u32.to_le_bytes());
    body.extend_from_slice(&[1, 2, 3, 4]);
    let r = Cluster::decode(&body, 0, body.len() as u64, 1000);
    assert_eq!(r.err().unwrap().kind, ErrorKind::Format);
}

#[test]
fn corrupt_cluster_in_archive_is_not_returned() {
    let mut bad = vec![1u8];
    bad.extend_from_slice(&8u32.to_le_bytes());
    bad.extend_from_slice(&4u32.to_le_bytes());
    bad.extend_from_slice(&100u32.to_le_bytes());
    let entries = vec![entry_bytes(0, b'A', 0, &[0, 0], b"a", b"a")];
    let d = archive(&["text/html"], &entries, &[bad], 0xffffffff);
    let z = Zim::new(&d).ok().unwrap();
    assert!(z.get_cluster(0).is_none());
    assert!(Cluster::new(&z, 0).is_err());
}

#[test]
fn decompressed_size_limit() {
    let d = sample();
    let mut z = Zim::new(&d).ok().unwrap();
    assert_eq!(z.max_cluster_size(), zim::archive::DEFAULT_MAX_CLUSTER_SIZE);
    z.set_max_cluster_size(12);
    assert!(z.get_cluster(1).is_none());
    assert_eq!(Cluster::new(&z, 1).err().unwrap().kind, ErrorKind::Codec);
    assert!(z.get_cluster(0).is_some());
    z.set_max_cluster_size(13);
    assert_eq!(z.get_cluster(1).unwrap().data().len(), 13);
}

#[test]
fn cluster_errors() {
    let mut d = vec![9u8];
    d.extend_from_slice(&4u32.to_le_bytes());
    assert_eq!(Cluster::decode(&d, 0, 5, 1000).err().unwrap().kind, ErrorKind::Format);
    assert_eq!(Cluster::decode(&d, 3, 3, 1000).err().unwrap().kind, ErrorKind::Format);
    assert_eq!(Cluster::decode(&d, 0, 6, 1000).err().unwrap().kind, ErrorKind::Truncated);
    let short = vec![0u8, 1, 2];
    assert_eq!(Cluster::decode(&short, 0, 3, 1000).err().unwrap().kind, ErrorKind::Truncated);
    let bad_xz = vec![4u8, 1, 2, 3, 4, 5, 6, 7, 8];
    assert_eq!(Cluster::decode(&bad_xz, 0, 9, 1000).err().unwrap().kind, ErrorKind::Codec);
    let empty_stored = vec![0u8, 4, 0, 0, 0];
    let c = Cluster::decode(&empty_stored, 0, 5, 1000).ok().unwrap();
    assert_eq!(c.blob_count(), 1);
    assert_eq!(c.get_blob(0).unwrap().len(), 0);
}

#[test]
fn iterator_walks_url_order() {
    let d = sample();
    let z = Zim::new(&d).ok().unwrap();
    let mut it = z.iterate_by_urls();
    let mut urls = Vec::new();
    while let Some(e) = it.next() {
        urls.push(e.url);
    }
    assert_eq!(urls, vec!["Apple", "Banana", "Cherry.png"]);
    for w in urls.windows(2) {
        assert!(w[0].as_bytes() <= w[1].as_bytes());
    }
    assert!(it.next().is_none());
}

#[test]
fn iterator_stops_at_first_bad_entry() {
    let entries = vec![
        entry_bytes(0, b'A', 0, &[0, 0], b"a", b"a"),
        entry_bytes(9, b'A', 0, &[0, 0], b"b", b"b"),
        entry_bytes(0, b'A', 0, &[0, 0], b"c", b"c"),
    ];
    let d = archive(&["text/html"], &entries, &[], 0xffffffff);
    let z = Zim::new(&d).ok().unwrap();
    let mut it = z.iterate_by_urls();
    assert_eq!(it.next().unwrap().url, "a");
    assert!(it.next().is_none());
    assert!(it.next().is_none());
    assert_eq!(z.get_by_url_index(2).unwrap().url, "c");
}

#[test]
fn bad_magic_is_format_error() {
    let mut d = sample();
    d[0] ^= 1;
    assert_eq!(kind_of(Zim::new(&d)), ErrorKind::Format);
}

#[test]
fn short_file_is_truncated() {
    assert_eq!(kind_of(Zim::new(&[1, 2])), ErrorKind::Truncated);
    let d = sample();
    assert_eq!(kind_of(Zim::new(&d[..40])), ErrorKind::Truncated);
}

#[test]
fn mime_offset_must_be_header_size() {
    let mut d = sample();
    d[56] = 81;
    assert_eq!(kind_of(Zim::new(&d)), ErrorKind::Format);
}

#[test]
fn truncated_mid_mime_table() {
    let d = sample();
    assert_eq!(kind_of(Zim::new(&d[..85])), ErrorKind::Truncated);
    assert_eq!(kind_of(Zim::new(&d[..93])), ErrorKind::Truncated);
}

#[test]
fn invalid_utf8_mime_is_encoding_error() {
    let mut d = sample();
    d[81] = 0xff;
    assert_eq!(kind_of(Zim::new(&d)), ErrorKind::Encoding);
}

#[test]
fn table_past_end_is_truncated() {
    let mut d = sample();
    let len = d.len() as u64;
    d[32..40].copy_from_slice(&len.to_le_bytes());
    assert_eq!(kind_of(Zim::new(&d)), ErrorKind::Truncated);
}

#[test]
fn entry_decode_errors() {
    let d = sample();
    let z = Zim::new(&d).ok().unwrap();
    let unknown = entry_bytes(5, b'A', 0, &[0, 0], b"u", b"t");
    assert_eq!(DirectoryEntry::new(&z, &unknown).err().unwrap().kind, ErrorKind::MimeLookup);
    let bad_url = entry_bytes(0, b'A', 0, &[0, 0], &[0xc3, 0x28], b"t");
    assert_eq!(DirectoryEntry::new(&z, &bad_url).err().unwrap().kind, ErrorKind::Encoding);
    let mut no_title_end = entry_bytes(0, b'A', 0, &[0, 0], b"u", b"t");
    no_title_end.pop();
    assert_eq!(DirectoryEntry::new(&z, &no_title_end).err().unwrap().kind, ErrorKind::Truncated);
    assert_eq!(DirectoryEntry::new(&z, &[0, 0, 0]).err().unwrap().kind, ErrorKind::Truncated);
    let short_redirect = vec![0xff, 0xff, 0, b'A', 0, 0, 0, 0, 1];
    assert_eq!(DirectoryEntry::new(&z, &short_redirect).err().unwrap().kind, ErrorKind::Truncated);
}

#[test]
fn unreadable_entry_leaves_archive_usable() {
    let entries = vec![
        entry_bytes(7, b'A', 0, &[0, 0], b"x", b"x"),
        entry_bytes(0, b'A', 0, &[0, 0], b"y", b"y"),
    ];
    let d = archive(&["text/html"], &entries, &[], 0xffffffff);
    let z = Zim::new(&d).ok().unwrap();
    assert!(z.get_by_url_index(0).is_none());
    assert_eq!(z.get_by_url_index(1).unwrap().title, "y");
}

#[test]
fn error_messages() {
    let e = zim::ParsingError::new(ErrorKind::Codec);
    assert_eq!(e.message(), "Error decoding compressed data");
    assert_eq!(zim::ParsingError::new(ErrorKind::MimeLookup).message(), "No such Mimetype");
    assert_eq!(zim::ParsingError::new(ErrorKind::Truncated).message(), "Error reading bytestream");
    assert_eq!(zim::ParsingError::new(ErrorKind::Encoding).message(), "Error converting to string");
}
