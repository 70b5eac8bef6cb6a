use vstd::prelude::*;
use crate::codec::{le32, le64, find_nul, lemma_find_nul, utf8_text};
use crate::cluster::{ClusterModel, parse_cluster, blob_range, blob_list_sorted};
use crate::archive::{ZimView, parse_archive, parse_mime_table, entry_at, MAGIC};
use crate::error::ErrorKind;

verus! {

/// `a` comes no later than `b` in lexicographic byte order.
pub open spec fn bytes_le(a: Seq<u8>, b: Seq<u8>) -> bool
    decreases a.len(),
{
    if a.len() == 0 {
        true
    } else if b.len() == 0 {
        false
    } else if a[0] < b[0] {
        true
    } else if a[0] == b[0] {
        bytes_le(a.drop_first(), b.drop_first())
    } else {
        false
    }
}

/// Lexicographic byte order is reflexive.
pub proof fn lemma_bytes_le_refl(a: Seq<u8>)
    ensures
        bytes_le(a, a),
    decreases a.len(),
{
    if a.len() > 0 {
        lemma_bytes_le_refl(a.drop_first());
    }
}

/// Lexicographic byte order is transitive.
pub proof fn lemma_bytes_le_trans(a: Seq<u8>, b: Seq<u8>, c: Seq<u8>)
    requires
        bytes_le(a, b),
        bytes_le(b, c),
    ensures
        bytes_le(a, c),
    decreases a.len(),
{
    if a.len() > 0 && b.len() > 0 && c.len() > 0 && a[0] == b[0] && b[0] == c[0] {
        lemma_bytes_le_trans(a.drop_first(), b.drop_first(), c.drop_first());
    }
}

/// The archive's URL table is sorted by URL wherever two neighbouring entries decode.
pub open spec fn url_table_sorted(z: ZimView) -> bool {
    forall|k: int|
        0 <= k && k + 1 < z.article_count && #[trigger] entry_at(z, k) is Ok && entry_at(z, k + 1) is Ok
            ==> bytes_le(entry_at(z, k)->Ok_0.url, entry_at(z, k + 1)->Ok_0.url)
}

/// Walking the URL table in order, as the directory iterator does, gives URLs that
/// never decrease over any run of entries that all decode, provided the table is
/// sorted as the format requires. `DirectoryIterator::next` states that every
/// entry up to the one it yields decodes, so this covers each run of its calls.
pub proof fn lemma_url_walk_sorted(z: ZimView, i: int, j: int)
    requires
        z.wf(),
        url_table_sorted(z),
        0 <= i <= j < z.article_count,
        forall|k: int| i <= k <= j ==> #[trigger] entry_at(z, k) is Ok,
    ensures
        bytes_le(entry_at(z, i)->Ok_0.url, entry_at(z, j)->Ok_0.url),
    decreases j - i,
{
    if i == j {
        lemma_bytes_le_refl(entry_at(z, i)->Ok_0.url);
    } else {
        lemma_url_walk_sorted(z, i, j - 1);
        assert(entry_at(z, j - 1) is Ok);
        assert(entry_at(z, j) is Ok);
        lemma_bytes_le_trans(
            entry_at(z, i)->Ok_0.url,
            entry_at(z, j - 1)->Ok_0.url,
            entry_at(z, j)->Ok_0.url,
        );
    }
}

/// Every cluster that decodes has blob offsets that never decrease and whose
/// last one is the length of the decompressed body.
pub proof fn lemma_cluster_offsets_sorted(d: Seq<u8>, start: u64, end: u64, limit: int)
    ensures
        parse_cluster(d, start, end, limit) matches Ok(c) ==> blob_list_sorted(c),
{
}

/// The bytes of blob `i`, as `Cluster::get_blob` returns them.
pub open spec fn blob_of(c: ClusterModel, i: int) -> Seq<u8> {
    let (lo, hi) = blob_range(c.blob_list, c.data.len() as int, i)->0;
    c.data.subrange(lo, hi)
}

/// Blobs `0 .. n` one after the other.
pub open spec fn blobs_joined(c: ClusterModel, n: int) -> Seq<u8>
    decreases n,
{
    if n <= 0 {
        seq![]
    } else {
        blobs_joined(c, n - 1) + blob_of(c, n - 1)
    }
}

/// Where the offsets are sorted and end at the body's length, every blob can be
/// read, blob `i` is `offsets[i + 1] - offsets[i]` bytes long, and the blobs in
/// order make up the body from the first offset on.
pub proof fn lemma_blobs_rebuild_body(c: ClusterModel)
    requires
        blob_list_sorted(c),
    ensures
        forall|i: int| 0 <= i < c.blob_list.len() ==> #[trigger] blob_range(c.blob_list, c.data.len() as int, i) is Some,
        forall|i: int| 0 <= i < c.blob_list.len() - 1 ==> #[trigger] blob_of(c, i).len() == c.blob_list[i + 1] - c.blob_list[i],
        blobs_joined(c, c.blob_list.len() as int) == c.data.subrange(c.blob_list[0] as int, c.data.len() as int),
{
    let l = c.blob_list;
    let len = c.data.len() as int;
    assert forall|i: int| 0 <= i < l.len() implies #[trigger] blob_range(l, len, i) is Some by {
        assert(l[i] <= l[l.len() - 1]);
        if i + 1 < l.len() {
            assert(l[i] <= l[i + 1]);
            assert(l[i + 1] <= l[l.len() - 1]);
        }
    }
    assert forall|i: int| 0 <= i < l.len() - 1 implies #[trigger] blob_of(c, i).len() == l[i + 1] - l[i] by {
        assert(blob_range(l, len, i) is Some);
    }
    lemma_joined_prefix(c, l.len() as int);
}

/// Blobs `0 .. n` of a sorted offset list cover the body from the first offset to
/// the start of blob `n`.
proof fn lemma_joined_prefix(c: ClusterModel, n: int)
    requires
        blob_list_sorted(c),
        1 <= n <= c.blob_list.len(),
    ensures
        blobs_joined(c, n) == c.data.subrange(
            c.blob_list[0] as int,
            if n < c.blob_list.len() { c.blob_list[n] as int } else { c.data.len() as int },
        ),
    decreases n,
{
    let l = c.blob_list;
    let len = c.data.len() as int;
    let k = n - 1;
    assert(l[0] <= l[k]);
    assert(l[k] <= l[l.len() - 1]);
    let hi = if n < l.len() { l[n] as int } else { len };
    if n < l.len() {
        assert(l[k] <= l[n]);
        assert(l[n] <= l[l.len() - 1]);
    }
    assert(blob_range(l, len, k) == Some((l[k] as int, hi)));
    if n == 1 {
        assert(blobs_joined(c, 0) + blob_of(c, 0) =~= c.data.subrange(l[0] as int, hi));
    } else {
        lemma_joined_prefix(c, k);
        assert(c.data.subrange(l[0] as int, l[k] as int) + c.data.subrange(l[k] as int, hi)
            =~= c.data.subrange(l[0] as int, hi));
    }
}

/// Every archive that opens has its mime table at offset 80, as its header says.
pub proof fn lemma_open_mime_offset(d: Seq<u8>)
    ensures
        parse_archive(d) matches Ok(z) ==> z.mime_tbl_off == 80 && le64(d, 56) == 80 && le32(d, 0) == MAGIC,
{
}

/// Data that does not start with the magic number fails to open with a format
/// error, before any table is read.
pub proof fn lemma_bad_magic(d: Seq<u8>)
    requires
        d.len() >= 4,
        le32(d, 0) != MAGIC,
    ensures
        parse_archive(d) == Err::<ZimView, ErrorKind>(ErrorKind::Format),
{
}

/// The mime table that starts at `p` runs to the end of the data: each string
/// found is non-empty and valid UTF-8, and the last one has no terminator.
pub open spec fn mime_table_unterminated(d: Seq<u8>, p: int) -> bool
    decreases d.len() - p via mime_unterminated_decreases
{
    match find_nul(d, p) {
        None => true,
        Some(e) => if e <= p {
            false
        } else {
            utf8_text(d.subrange(p, e)) is Some && mime_table_unterminated(d, e + 1)
        },
    }
}

#[via_fn]
proof fn mime_unterminated_decreases(d: Seq<u8>, p: int) {
    lemma_find_nul(d, p);
}

/// A mime table cut off by the end of the data before its closing empty string is
/// a truncation.
pub proof fn lemma_mime_table_cut(d: Seq<u8>, p: int)
    requires
        mime_table_unterminated(d, p),
    ensures
        parse_mime_table(d, p) == Err::<Seq<Seq<char>>, ErrorKind>(ErrorKind::Truncated),
    decreases d.len() - p,
{
    lemma_find_nul(d, p);
    if let Some(e) = find_nul(d, p) {
        lemma_mime_table_cut(d, e + 1);
    }
}

/// Data whose header is sound but whose mime table is cut off by the end of the
/// data fails to open with a truncation error.
pub proof fn lemma_truncated_mime_table(d: Seq<u8>)
    requires
        d.len() >= 80,
        le32(d, 0) == MAGIC,
        le64(d, 56) == 80,
        mime_table_unterminated(d, 80),
    ensures
        parse_archive(d) == Err::<ZimView, ErrorKind>(ErrorKind::Truncated),
{
    lemma_mime_table_cut(d, 80);
}

} // verus!
