use vstd::prelude::*;
use vstd::slice::{slice_subrange, slice_to_vec};
use crate::codec::{le32, le64, find_nul, lemma_find_nul, utf8_text, read_u32_at, read_u64_at, text_from_utf8, find_terminator};
use crate::entry::{MimeType, DirectoryEntry, EntryModel, parse_entry, texts, nul_free, mime_of, mime_lookup, decode_entry};
use crate::cluster::{Cluster, ClusterModel, parse_cluster, blob_list_sorted, COMPRESSION_XZ};
use crate::error::{ErrorKind, ParsingError};
use crate::lemmas::{bytes_le, url_table_sorted};

verus! {

/// The number that every archive starts with.
pub const MAGIC: u32 = 72173914;

/// Size of the fixed header; the mime table starts right after it.
pub const HEADER_LEN: u64 = 80;

/// Largest decompressed cluster body accepted unless the archive is told otherwise.
pub const DEFAULT_MAX_CLUSTER_SIZE: usize = 268435456;

/// Value of the main and layout page fields that means "no such page".
pub const NO_PAGE: u32 = 0xffffffff;

/// Represents a ZIM file, read in place from the bytes it borrows.
pub struct Zim<'a> {
    version: u32,
    article_count: u32,
    cluster_count: u32,
    url_tbl_off: u64,
    title_tbl_off: u64,
    cluster_tbl_off: u64,
    mime_tbl_off: u64,
    main_page_idx: Option<u32>,
    layout_page_idx: Option<u32>,
    checksum_off: u64,
    data: &'a [u8],
    /// List of mimetypes used in this ZIM archive
    mime_table: Vec<String>,
    /// Offsets of the directory entries, in URL order
    url_list: Vec<u64>,
    /// Indices into `url_list`, in title order
    article_list: Vec<u32>,
    /// Offsets of the clusters
    cluster_list: Vec<u64>,
    /// Largest decompressed cluster body accepted
    max_cluster_size: usize,
}

/// The mathematical value of a `Zim`: its bytes and what was read from them at open time.
pub struct ZimView {
    pub data: Seq<u8>,
    pub version: u32,
    pub article_count: u32,
    pub cluster_count: u32,
    pub url_tbl_off: u64,
    pub title_tbl_off: u64,
    pub cluster_tbl_off: u64,
    pub mime_tbl_off: u64,
    pub main_page_idx: Option<u32>,
    pub layout_page_idx: Option<u32>,
    pub checksum_off: u64,
    pub mime_table: Seq<Seq<char>>,
    pub url_list: Seq<u64>,
    pub article_list: Seq<u32>,
    pub cluster_list: Seq<u64>,
}

impl ZimView {
    /// The offset tables have the lengths that the header gives.
    pub open spec fn wf(&self) -> bool {
        &&& self.url_list.len() == self.article_count
        &&& self.article_list.len() == self.article_count
        &&& self.cluster_list.len() == self.cluster_count
    }
}

impl<'a> View for Zim<'a> {
    type V = ZimView;

    closed spec fn view(&self) -> ZimView {
        ZimView {
            data: self.data@,
            version: self.version,
            article_count: self.article_count,
            cluster_count: self.cluster_count,
            url_tbl_off: self.url_tbl_off,
            title_tbl_off: self.title_tbl_off,
            cluster_tbl_off: self.cluster_tbl_off,
            mime_tbl_off: self.mime_tbl_off,
            main_page_idx: self.main_page_idx,
            layout_page_idx: self.layout_page_idx,
            checksum_off: self.checksum_off,
            mime_table: texts(self.mime_table@),
            url_list: self.url_list@,
            article_list: self.article_list@,
            cluster_list: self.cluster_list@,
        }
    }
}

/// The mime table that starts at `p`: null-terminated UTF-8 strings up to the
/// first empty one.
pub open spec fn parse_mime_table(d: Seq<u8>, p: int) -> Result<Seq<Seq<char>>, ErrorKind>
    decreases d.len() - p via mime_table_decreases
{
    match find_nul(d, p) {
        None => Err(ErrorKind::Truncated),
        Some(e) => if e <= p {
            Ok(seq![])
        } else {
            match utf8_text(d.subrange(p, e)) {
                None => Err(ErrorKind::Encoding),
                Some(t) => match parse_mime_table(d, e + 1) {
                    Ok(rest) => Ok(seq![t] + rest),
                    Err(k) => Err(k),
                },
            }
        },
    }
}

#[via_fn]
proof fn mime_table_decreases(d: Seq<u8>, p: int) {
    lemma_find_nul(d, p);
}

/// A page index field: `None` for the "no such page" value.
pub open spec fn page_index(v: int) -> Option<u32> {
    if v == 0xffffffff {
        None
    } else {
        Some(v as u32)
    }
}

/// The `n` little-endian u64 values at `off`.
pub open spec fn u64_table(d: Seq<u8>, off: int, n: int) -> Seq<u64> {
    Seq::new(n as nat, |k: int| le64(d, off + 8 * k) as u64)
}

/// The `n` little-endian u32 values at `off`.
pub open spec fn u32_table(d: Seq<u8>, off: int, n: int) -> Seq<u32> {
    Seq::new(n as nat, |k: int| le32(d, off + 4 * k) as u32)
}

/// Opening an archive whose bytes are `d`: what is read at open time, or the kind of failure.
pub open spec fn parse_archive(d: Seq<u8>) -> Result<ZimView, ErrorKind> {
    if d.len() < 4 {
        Err(ErrorKind::Truncated)
    } else if le32(d, 0) != MAGIC {
        Err(ErrorKind::Format)
    } else if d.len() < 80 {
        Err(ErrorKind::Truncated)
    } else if le64(d, 56) != 80 {
        Err(ErrorKind::Format)
    } else {
        match parse_mime_table(d, 80) {
            Err(k) => Err(k),
            Ok(mimes) => {
                let ac = le32(d, 24);
                let cc = le32(d, 28);
                let url_off = le64(d, 32);
                let title_off = le64(d, 40);
                let cluster_off = le64(d, 48);
                if url_off + 8 * ac > d.len() || title_off + 4 * ac > d.len() || cluster_off + 8 * cc
                    > d.len() {
                    Err(ErrorKind::Truncated)
                } else {
                    Ok(
                        ZimView {
                            data: d,
                            version: le32(d, 4) as u32,
                            article_count: ac as u32,
                            cluster_count: cc as u32,
                            url_tbl_off: url_off as u64,
                            title_tbl_off: title_off as u64,
                            cluster_tbl_off: cluster_off as u64,
                            mime_tbl_off: 80,
                            main_page_idx: page_index(le32(d, 64)),
                            layout_page_idx: page_index(le32(d, 68)),
                            checksum_off: le64(d, 72) as u64,
                            mime_table: mimes,
                            url_list: u64_table(d, url_off, ac),
                            article_list: u32_table(d, title_off, ac),
                            cluster_list: u64_table(d, cluster_off, cc),
                        },
                    )
                }
            },
        }
    }
}

/// Decoding the entry at position `i` of the URL table.
pub open spec fn entry_at(z: ZimView, i: int) -> Result<EntryModel, ErrorKind> {
    let off = z.url_list[i] as int;
    if off > z.data.len() {
        Err(ErrorKind::Truncated)
    } else {
        parse_entry(z.mime_table, z.data.subrange(off, z.data.len() as int))
    }
}

/// Where cluster `idx` ends: at the next cluster, or at the checksum for the last one.
pub open spec fn cluster_end(z: ZimView, idx: int) -> u64 {
    if idx + 1 < z.cluster_list.len() {
        z.cluster_list[idx + 1]
    } else {
        z.checksum_off
    }
}

/// Decoding cluster `idx`, with at most `limit` bytes of decompressed body.
pub open spec fn cluster_at(z: ZimView, idx: int, limit: int) -> Result<ClusterModel, ErrorKind> {
    parse_cluster(z.data, z.cluster_list[idx], cluster_end(z, idx), limit)
}

/// Reads `n` little-endian u64 values at `off`.
fn read_u64_table(d: &[u8], off: u64, n: u32) -> (r: Vec<u64>)
    requires
        off + 8 * n <= d@.len(),
    ensures
        r@ == u64_table(d@, off as int, n as int),
{
    let mut list: Vec<u64> = Vec::new();
    let len = d.len();
    let mut k: u32 = 0;
    let mut pos: usize = off as usize;
    while k < n
        invariant
            k <= n,
            off + 8 * n <= d@.len(),
            len == d@.len(),
            pos == off + 8 * k,
            list@.len() == k,
            forall|j: int| 0 <= j < k ==> list@[j] == le64(d@, off + 8 * j) as u64,
        decreases n - k,
    {
        let v = read_u64_at(d, pos);
        assert(v == le64(d@, pos as int) as u64);
        list.push(v);
        k = k + 1;
        pos = pos + 8;
    }
    assert(list@ =~= u64_table(d@, off as int, n as int));
    list
}

/// Reads `n` little-endian u32 values at `off`.
fn read_u32_table(d: &[u8], off: u64, n: u32) -> (r: Vec<u32>)
    requires
        off + 4 * n <= d@.len(),
    ensures
        r@ == u32_table(d@, off as int, n as int),
{
    let mut list: Vec<u32> = Vec::new();
    let len = d.len();
    let mut k: u32 = 0;
    let mut pos: usize = off as usize;
    while k < n
        invariant
            k <= n,
            off + 4 * n <= d@.len(),
            len == d@.len(),
            pos == off + 4 * k,
            list@.len() == k,
            forall|j: int| 0 <= j < k ==> list@[j] == le32(d@, off + 4 * j) as u32,
        decreases n - k,
    {
        let v = read_u32_at(d, pos);
        assert(v == le32(d@, pos as int) as u32);
        list.push(v);
        k = k + 1;
        pos = pos + 4;
    }
    assert(list@ =~= u32_table(d@, off as int, n as int));
    list
}

/// Reads the mime table that starts at `start`.
fn read_mime_table(d: &[u8], start: usize) -> (r: Result<Vec<String>, ParsingError>)
    requires
        start <= d@.len(),
    ensures
        match parse_mime_table(d@, start as int) {
            Ok(t) => r matches Ok(v) && texts(v@) == t,
            Err(k) => r matches Err(e) && e.kind == k,
        },
{
    let len = d.len();
    let mut table: Vec<String> = Vec::new();
    let mut pos: usize = start;
    loop
        invariant
            len == d@.len(),
            start <= pos <= d@.len(),
            parse_mime_table(d@, start as int) == match parse_mime_table(d@, pos as int) {
                Ok(rest) => Ok(texts(table@) + rest),
                Err(k) => Err(k),
            },
        decreases d@.len() - pos,
    {
        proof {
            lemma_find_nul(d@, pos as int);
        }
        let end = match find_terminator(d, pos) {
            None => return Err(ParsingError::new(ErrorKind::Truncated)),
            Some(e) => e,
        };
        if end <= pos {
            assert(texts(table@) + seq![] =~= texts(table@));
            return Ok(table);
        }
        assert(end < d@.len());
        let bytes = slice_to_vec(slice_subrange(d, pos, end));
        let text = match text_from_utf8(bytes) {
            None => return Err(ParsingError::new(ErrorKind::Encoding)),
            Some(t) => t,
        };
        let ghost before = table@;
        table.push(text);
        proof {
            assert(texts(table@) =~= texts(before) + seq![text@]);
            if let Ok(rest) = parse_mime_table(d@, end + 1) {
                assert(texts(before) + (seq![text@] + rest) =~= texts(table@) + rest);
            }
        }
        pos = end + 1;
    }
}

impl<'a> Zim<'a> {
    /// The archive is what opening its bytes gives.
    pub open spec fn wf(&self) -> bool {
        &&& self@.wf()
        &&& parse_archive(self@.data) == Ok::<ZimView, ErrorKind>(self@)
    }

    /// Opens the archive whose bytes are `data`, such as a mapped file: parses the header and the mime table, and
    /// loads the url, title, and cluster offset tables.  The rest of the data isn't
    /// parsed until it's needed.
    pub fn new(data: &'a [u8]) -> (r: Result<Zim<'a>, ParsingError>)
        ensures
            match parse_archive(data@) {
                Ok(m) => r matches Ok(z) && z@ == m && z.wf() && z.cluster_limit() == DEFAULT_MAX_CLUSTER_SIZE,
                Err(k) => r matches Err(e) && e.kind == k,
            },
    {
        let d = data;
        let len = d.len();
        if len < 4 {
            return Err(ParsingError::new(ErrorKind::Truncated));
        }
        let magic = read_u32_at(d, 0);
        if magic != MAGIC {
            return Err(ParsingError::new(ErrorKind::Format));
        }
        if len < 80 {
            return Err(ParsingError::new(ErrorKind::Truncated));
        }
        let version = read_u32_at(d, 4);
        let article_count = read_u32_at(d, 24);
        let cluster_count = read_u32_at(d, 28);
        let url_ptr_pos = read_u64_at(d, 32);
        let title_ptr_pos = read_u64_at(d, 40);
        let cluster_ptr_pos = read_u64_at(d, 48);
        let mime_list_pos = read_u64_at(d, 56);
        if mime_list_pos != HEADER_LEN {
            return Err(ParsingError::new(ErrorKind::Format));
        }
        let main_page = read_u32_at(d, 64);
        let layout_page = read_u32_at(d, 68);
        let checksum_pos = read_u64_at(d, 72);
        let mime_table = read_mime_table(d, 80)?;
        if url_ptr_pos as u128 + 8 * (article_count as u128) > len as u128 || title_ptr_pos as u128
            + 4 * (article_count as u128) > len as u128 || cluster_ptr_pos as u128 + 8 * (
        cluster_count as u128) > len as u128 {
            return Err(ParsingError::new(ErrorKind::Truncated));
        }
        let url_list = read_u64_table(d, url_ptr_pos, article_count);
        let article_list = read_u32_table(d, title_ptr_pos, article_count);
        let cluster_list = read_u64_table(d, cluster_ptr_pos, cluster_count);
        let zim = Zim {
            version,
            article_count,
            cluster_count,
            url_tbl_off: url_ptr_pos,
            title_tbl_off: title_ptr_pos,
            cluster_tbl_off: cluster_ptr_pos,
            mime_tbl_off: mime_list_pos,
            main_page_idx: if main_page == NO_PAGE {
                None
            } else {
                Some(main_page)
            },
            layout_page_idx: if layout_page == NO_PAGE {
                None
            } else {
                Some(layout_page)
            },
            checksum_off: checksum_pos,
            data,
            mime_table,
            url_list,
            article_list,
            cluster_list,
            max_cluster_size: DEFAULT_MAX_CLUSTER_SIZE,
        };
        assert(zim@ == parse_archive(zim@.data)->Ok_0);
        Ok(zim)
    }
}

impl<'a> Zim<'a> {
    /// Largest decompressed cluster body that `get_cluster` accepts.
    pub closed spec fn cluster_limit(&self) -> usize {
        self.max_cluster_size
    }

    /// The current limit on the size of a decompressed cluster body.
    pub fn max_cluster_size(&self) -> (r: usize)
        ensures
            r == self.cluster_limit(),
    {
        self.max_cluster_size
    }

    /// Sets the largest decompressed cluster body that `get_cluster` accepts.
    pub fn set_max_cluster_size(&mut self, limit: usize)
        ensures
            final(self)@ == old(self)@,
            final(self).cluster_limit() == limit,
    {
        self.max_cluster_size = limit;
    }

    /// Number of articles in this archive.
    pub fn article_count(&self) -> (r: u32)
        ensures
            r == self@.article_count,
    {
        self.article_count
    }

    /// Number of clusters in this archive.
    pub fn cluster_count(&self) -> (r: u32)
        ensures
            r == self@.cluster_count,
    {
        self.cluster_count
    }

    /// If Main Page is defined, this is the index to the page.
    pub fn main_page_index(&self) -> (r: Option<u32>)
        ensures
            r == self@.main_page_idx,
    {
        self.main_page_idx
    }

    /// If Layout Page is defined, this is the index to the page.
    pub fn layout_page_index(&self) -> (r: Option<u32>)
        ensures
            r == self@.layout_page_idx,
    {
        self.layout_page_idx
    }

    /// Where the mime table starts in the file.
    pub fn mime_table_offset(&self) -> (r: u64)
        ensures
            r == self@.mime_tbl_off,
    {
        self.mime_tbl_off
    }

    /// Index into the URL table of the article at position `idx` in title order.
    pub fn url_index_by_title(&self, idx: u32) -> (r: Option<u32>)
        requires
            self.wf(),
        ensures
            r == (if idx < self@.article_count {
                Some(self@.article_list[idx as int])
            } else {
                None
            }),
    {
        if idx < self.article_count {
            Some(self.article_list[idx as usize])
        } else {
            None
        }
    }

    /// Indexes into the ZIM mime_table.
    pub fn get_mimetype(&self, id: u16) -> (r: Option<MimeType>)
        ensures
            r is Some <==> mime_of(self@.mime_table, id as int) is Some,
            r matches Some(m) ==> m@ == mime_of(self@.mime_table, id as int)->0,
    {
        mime_lookup(&self.mime_table, id)
    }

    /// Iterates over articles, sorted by URL.
    ///
    /// For performance reasons, you might want to extract by cluster instead.
    pub fn iterate_by_urls(&self) -> (r: DirectoryIterator<'_>)
        requires
            self.wf(),
        ensures
            r.valid(),
            r.archive() == self@,
            r.cursor() == 0,
            !r.stopped(),
    {
        DirectoryIterator::new(self)
    }

    /// The entry at position `idx` of the URL table, decoded.
    fn entry_at_index(&self, idx: u32) -> (r: Result<DirectoryEntry, ParsingError>)
        requires
            self.wf(),
            idx < self@.article_count,
        ensures
            match entry_at(self@, idx as int) {
                Ok(m) => r matches Ok(e) && e.decodes(m),
                Err(k) => r matches Err(e) && e.kind == k,
            },
            r matches Ok(e) ==> nul_free(e.url@) && nul_free(e.title@),
    {
        let entry_offset = self.url_list[idx as usize];
        let len = self.data.len();
        if entry_offset > len as u64 {
            return Err(ParsingError::new(ErrorKind::Truncated));
        }
        let slice = slice_subrange(self.data, entry_offset as usize, len);
        DirectoryEntry::new(self, slice)
    }

    /// Returns the `DirectoryEntry` for the article found at the given URL index,
    /// or `None` where `idx` is not below `article_count` or the entry cannot be decoded.
    pub fn get_by_url_index(&self, idx: u32) -> (r: Option<DirectoryEntry>)
        requires
            self.wf(),
        ensures
            r is Some <==> idx < self@.article_count && entry_at(self@, idx as int) is Ok,
            r matches Some(e) ==> e.decodes(entry_at(self@, idx as int)->Ok_0),
            r matches Some(e) ==> nul_free(e.url@) && nul_free(e.title@),
    {
        if idx >= self.article_count {
            return None;
        }
        match self.entry_at_index(idx) {
            Ok(e) => Some(e),
            Err(_) => None,
        }
    }

    /// Returns the given `Cluster`, or `None` where `idx` is not below
    /// `cluster_count` or the cluster cannot be decoded.
    pub fn get_cluster(&self, idx: u32) -> (r: Option<Cluster>)
        requires
            self.wf(),
        ensures
            r is Some <==> idx < self@.cluster_count && cluster_at(self@, idx as int, self.cluster_limit() as int) is Ok,
            r matches Some(c) ==> c@ == cluster_at(self@, idx as int, self.cluster_limit() as int)->Ok_0,
            r matches Some(c) ==> blob_list_sorted(c@),
            r matches Some(c) ==> c@.data.len() <= self.cluster_limit() || c@.comp_type != COMPRESSION_XZ,
    {
        if idx >= self.cluster_count {
            return None;
        }
        match Cluster::new(self, idx) {
            Ok(c) => Some(c),
            Err(_) => None,
        }
    }
}

impl DirectoryEntry {
    /// Decodes the directory entry at the start of `s`, with the mime table of `zim`.
    pub fn new(zim: &Zim<'_>, s: &[u8]) -> (r: Result<DirectoryEntry, ParsingError>)
        ensures
            match parse_entry(zim@.mime_table, s@) {
                Ok(m) => r matches Ok(e) && e.decodes(m),
                Err(k) => r matches Err(e) && e.kind == k,
            },
            r matches Ok(e) ==> nul_free(e.url@) && nul_free(e.title@),
    {
        decode_entry(&zim.mime_table, s)
    }
}

impl Cluster {
    /// Decodes cluster `idx` of `zim`.
    pub fn new(zim: &Zim<'_>, idx: u32) -> (r: Result<Cluster, ParsingError>)
        requires
            zim.wf(),
            idx < zim@.cluster_count,
        ensures
            match cluster_at(zim@, idx as int, zim.cluster_limit() as int) {
                Ok(m) => r matches Ok(c) && c@ == m,
                Err(k) => r matches Err(e) && e.kind == k,
            },
            r matches Ok(c) ==> blob_list_sorted(c@),
            r matches Ok(c) ==> c@.data.len() <= zim.cluster_limit() || c@.comp_type != COMPRESSION_XZ,
    {
        let i = idx as usize;
        let this_cluster_off = zim.cluster_list[i];
        let next_cluster_off = if i + 1 < zim.cluster_list.len() {
            zim.cluster_list[i + 1]
        } else {
            zim.checksum_off
        };
        Cluster::decode(zim.data, this_cluster_off, next_cluster_off, zim.max_cluster_size)
    }
}

/// Walks the URL table in order, decoding one entry per step; it stops for good at
/// the end of the table or at the first entry that cannot be decoded.
pub struct DirectoryIterator<'a> {
    max_articles: u32,
    article_to_yield: u32,
    stopped: bool,
    zim: &'a Zim<'a>,
}

impl<'a> DirectoryIterator<'a> {
    /// The archive walked.
    pub closed spec fn archive(&self) -> ZimView {
        self.zim@
    }

    /// Position in the URL table of the next entry to decode.
    pub closed spec fn cursor(&self) -> int {
        self.article_to_yield as int
    }

    /// A decode failure has ended the walk.
    pub closed spec fn stopped(&self) -> bool {
        self.stopped
    }

    pub closed spec fn valid(&self) -> bool {
        &&& self.zim.wf()
        &&& self.max_articles == self.zim@.article_count
        &&& self.article_to_yield <= self.max_articles
        &&& !self.stopped ==> forall|k: int| 0 <= k < self.article_to_yield ==> #[trigger] entry_at(self.zim@, k) is Ok
    }

    fn new(zim: &'a Zim<'a>) -> (r: DirectoryIterator<'a>)
        requires
            zim.wf(),
        ensures
            r.valid(),
            r.archive() == zim@,
            r.cursor() == 0,
            !r.stopped(),
    {
        DirectoryIterator { max_articles: zim.article_count, article_to_yield: 0, stopped: false, zim }
    }

    /// The next entry in URL order, or `None` once the table is exhausted or an
    /// entry could not be decoded.
    pub fn next(&mut self) -> (r: Option<DirectoryEntry>)
        requires
            old(self).valid(),
        ensures
            final(self).valid(),
            final(self).archive() == old(self).archive(),
            old(self).stopped() || old(self).cursor() >= old(self).archive().article_count ==> {
                &&& r is None
                &&& final(self).cursor() == old(self).cursor()
                &&& final(self).stopped() == old(self).stopped()
            },
            !old(self).stopped() && old(self).cursor() < old(self).archive().article_count ==> {
                &&& final(self).cursor() == old(self).cursor() + 1
                &&& match entry_at(old(self).archive(), old(self).cursor()) {
                    Ok(m) => r matches Some(e) && e.decodes(m) && !final(self).stopped(),
                    Err(_) => r is None && final(self).stopped(),
                }
            },
            r matches Some(e) ==> nul_free(e.url@) && nul_free(e.title@),
            r is Some ==> forall|k: int| 0 <= k <= old(self).cursor() ==> #[trigger] entry_at(old(self).archive(), k) is Ok,
            r is Some && old(self).cursor() > 0 && url_table_sorted(old(self).archive()) ==> bytes_le(
                entry_at(old(self).archive(), old(self).cursor() - 1)->Ok_0.url,
                entry_at(old(self).archive(), old(self).cursor())->Ok_0.url,
            ),
    {
        if self.stopped || self.article_to_yield >= self.max_articles {
            return None;
        }
        let idx = self.article_to_yield;
        proof {
            if idx > 0 {
                assert(entry_at(self.zim@, idx - 1) is Ok);
            }
        }
        self.article_to_yield = idx + 1;
        match self.zim.entry_at_index(idx) {
            Ok(e) => Some(e),
            Err(_) => {
                self.stopped = true;
                None
            },
        }
    }
}

} // verus!
