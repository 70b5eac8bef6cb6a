use vstd::prelude::*;
use vstd::slice::{slice_subrange, slice_to_vec};
use crate::codec::{le32, xz_output, read_u32_at, decompress_xz};
use crate::error::{ErrorKind, ParsingError};

verus! {

/// Compression tag of a cluster whose body is one XZ stream.
pub const COMPRESSION_XZ: u8 = 4;

/// A cluster of blobs
///
/// Within an ZIM archive, clusters contain several blobs of data that are all compressed together.
/// Each blob is the data for an article.
pub struct Cluster {
    start_off: u64,
    end_off: u64,
    comp_type: u8,
    blob_list: Vec<u32>,
    data: Vec<u8>,
}

/// The mathematical value of a `Cluster`.
pub struct ClusterModel {
    pub start_off: u64,
    pub end_off: u64,
    pub comp_type: u8,
    /// Blob offsets into `data`, ending with the sentinel that closes the last blob.
    pub blob_list: Seq<u32>,
    /// The decompressed body.
    pub data: Seq<u8>,
}

impl View for Cluster {
    type V = ClusterModel;

    closed spec fn view(&self) -> ClusterModel {
        ClusterModel {
            start_off: self.start_off,
            end_off: self.end_off,
            comp_type: self.comp_type,
            blob_list: self.blob_list@,
            data: self.data@,
        }
    }
}

/// The blob offsets read from the start of `body` at `p`: little-endian u32 values
/// up to and including the first one that is at least the body's length.
pub open spec fn parse_blob_list(body: Seq<u8>, p: int) -> Option<Seq<u32>>
    decreases body.len() - p,
{
    if p < 0 || p + 4 > body.len() {
        None
    } else if le32(body, p) >= body.len() {
        Some(seq![le32(body, p) as u32])
    } else {
        match parse_blob_list(body, p + 4) {
            Some(rest) => Some(seq![le32(body, p) as u32] + rest),
            None => None,
        }
    }
}

/// The compression tag and body of the cluster stored in `d` over `[start, end)`;
/// a compressed body longer than `limit` bytes is refused.
pub open spec fn cluster_body(d: Seq<u8>, start: int, end: int, limit: int) -> Result<(u8, Seq<u8>), ErrorKind> {
    if end <= start {
        Err(ErrorKind::Format)
    } else if end > d.len() {
        Err(ErrorKind::Truncated)
    } else {
        let tag = d[start];
        let raw = d.subrange(start + 1, end);
        if tag == 4 {
            match xz_output(raw) {
                None => Err(ErrorKind::Codec),
                Some(body) => if body.len() > limit {
                    Err(ErrorKind::Codec)
                } else {
                    Ok((tag, body))
                },
            }
        } else if tag == 0 || tag == 1 {
            Ok((tag, raw))
        } else {
            Err(ErrorKind::Format)
        }
    }
}

/// The offsets never decrease and the last one is the body's length `len`.
pub open spec fn offsets_sorted(list: Seq<u32>, len: int) -> bool {
    &&& list.len() >= 1
    &&& list.last() == len
    &&& forall|a: int, b: int| 0 <= a <= b < list.len() ==> list[a] <= list[b]
}

/// The cluster's blob offsets never decrease and close at the body's length.
pub open spec fn blob_list_sorted(c: ClusterModel) -> bool {
    offsets_sorted(c.blob_list, c.data.len() as int)
}

/// Decoding the cluster stored in `d` over `[start, end)`, with at most `limit`
/// bytes of decompressed body.
pub open spec fn parse_cluster(d: Seq<u8>, start: u64, end: u64, limit: int) -> Result<ClusterModel, ErrorKind> {
    match cluster_body(d, start as int, end as int, limit) {
        Err(k) => Err(k),
        Ok((tag, body)) => match parse_blob_list(body, 0) {
            None => Err(ErrorKind::Truncated),
            Some(list) => if offsets_sorted(list, body.len() as int) {
                Ok(ClusterModel { start_off: start, end_off: end, comp_type: tag, blob_list: list, data: body })
            } else {
                Err(ErrorKind::Format)
            },
        },
    }
}

/// The byte range of blob `i`: from its offset to the next one, or to the end of
/// the body for the last offset; `None` where `i` or the range is out of bounds.
pub open spec fn blob_range(list: Seq<u32>, len: int, i: int) -> Option<(int, int)> {
    if i < 0 || i >= list.len() {
        None
    } else {
        let a = list[i] as int;
        let b = if i + 1 < list.len() {
            list[i + 1] as int
        } else {
            len
        };
        if a <= b <= len {
            Some((a, b))
        } else {
            None
        }
    }
}

/// Reads the blob offset list at the start of `body`.
fn read_blob_list(body: &Vec<u8>) -> (r: Option<Vec<u32>>)
    ensures
        r is Some <==> parse_blob_list(body@, 0) is Some,
        r matches Some(l) ==> l@ == parse_blob_list(body@, 0)->0,
{
    let mut list: Vec<u32> = Vec::new();
    let mut pos: usize = 0;
    let len = body.len();
    loop
        invariant
            len == body@.len(),
            pos % 4 == 0,
            pos <= len + 4,
            parse_blob_list(body@, 0) == match parse_blob_list(body@, pos as int) {
                Some(rest) => Some(list@ + rest),
                None => None::<Seq<u32>>,
            },
        decreases len + 4 - pos,
    {
        if len < 4 || pos > len - 4 {
            return None;
        }
        let offset = read_u32_at(body.as_slice(), pos);
        let ghost prev = list@;
        list.push(offset);
        if offset as usize >= len {
            return Some(list);
        }
        proof {
            if let Some(rest) = parse_blob_list(body@, pos + 4) {
                assert(prev + (seq![offset] + rest) =~= list@ + rest);
            }
        }
        pos = pos + 4;
    }
}

/// Whether the offsets never decrease and the last one is `len`.
fn check_offsets(list: &Vec<u32>, len: usize) -> (r: bool)
    ensures
        r == offsets_sorted(list@, len as int),
{
    let n = list.len();
    if n == 0 {
        return false;
    }
    let mut k: usize = 1;
    while k < n
        invariant
            1 <= k <= n,
            n == list@.len(),
            forall|a: int, b: int| 0 <= a <= b < k ==> list@[a] <= list@[b],
        decreases n - k,
    {
        if list[k - 1] > list[k] {
            return false;
        }
        k = k + 1;
    }
    list[n - 1] as usize == len
}

impl Cluster {
    /// Decodes the cluster stored in `d` over `[start, end)`. A compressed body
    /// longer than `limit` bytes is refused as a codec error; blob offsets that go
    /// down, or that do not close at the body's length, are a format error.
    pub fn decode(d: &[u8], start: u64, end: u64, limit: usize) -> (r: Result<Cluster, ParsingError>)
        ensures
            match parse_cluster(d@, start, end, limit as int) {
                Ok(m) => r matches Ok(c) && c@ == m,
                Err(k) => r matches Err(e) && e.kind == k,
            },
            r matches Ok(c) ==> blob_list_sorted(c@),
            r matches Ok(c) ==> c@.data.len() <= limit || c@.comp_type != COMPRESSION_XZ,
    {
        if end <= start {
            return Err(ParsingError::new(ErrorKind::Format));
        }
        if end > d.len() as u64 {
            return Err(ParsingError::new(ErrorKind::Truncated));
        }
        let s = start as usize;
        let e = end as usize;
        let comp_type = d[s];
        let raw = slice_subrange(d, s + 1, e);
        let data: Vec<u8> = if comp_type == COMPRESSION_XZ {
            match decompress_xz(raw) {
                Ok(body) => {
                    if body.len() > limit {
                        return Err(ParsingError::new(ErrorKind::Codec));
                    }
                    body
                },
                Err(err) => return Err(ParsingError::from(err)),
            }
        } else if comp_type == 0 || comp_type == 1 {
            slice_to_vec(raw)
        } else {
            return Err(ParsingError::new(ErrorKind::Format));
        };
        match read_blob_list(&data) {
            None => Err(ParsingError::new(ErrorKind::Truncated)),
            Some(blob_list) => {
                if !check_offsets(&blob_list, data.len()) {
                    return Err(ParsingError::new(ErrorKind::Format));
                }
                Ok(Cluster { start_off: start, end_off: end, comp_type, blob_list, data })
            },
        }
    }

    /// The compression tag of this cluster.
    pub fn comp_type(&self) -> (r: u8)
        ensures
            r == self@.comp_type,
    {
        self.comp_type
    }

    /// The number of blob offsets, the closing sentinel included.
    pub fn blob_count(&self) -> (r: usize)
        ensures
            r == self@.blob_list.len(),
    {
        self.blob_list.len()
    }

    /// The decompressed body.
    pub fn data(&self) -> (r: &[u8])
        ensures
            r@ == self@.data,
    {
        self.data.as_slice()
    }

    /// The bytes of blob `idx`, or `None` where `idx` or its range lies outside the body.
    pub fn get_blob(&self, idx: u32) -> (r: Option<&[u8]>)
        ensures
            r is Some <==> blob_range(self@.blob_list, self@.data.len() as int, idx as int) is Some,
            r matches Some(b) ==> {
                let (lo, hi) = blob_range(self@.blob_list, self@.data.len() as int, idx as int)->0;
                &&& b@ == self@.data.subrange(lo, hi)
                &&& b@.len() == hi - lo
            },
    {
        let i = idx as usize;
        if i >= self.blob_list.len() {
            return None;
        }
        let this_blob_off = self.blob_list[i] as usize;
        let next_blob_off = if i + 1 < self.blob_list.len() {
            self.blob_list[i + 1] as usize
        } else {
            self.data.len()
        };
        if this_blob_off <= next_blob_off && next_blob_off <= self.data.len() {
            Some(slice_subrange(self.data.as_slice(), this_blob_off, next_blob_off))
        } else {
            None
        }
    }
}

} // verus!
