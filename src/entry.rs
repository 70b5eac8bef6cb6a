use vstd::prelude::*;
use vstd::slice::{slice_subrange, slice_to_vec};
use crate::codec::{le16, le32, find_nul, lemma_find_nul, utf8_text, read_u16_at, read_u32_at, text_from_utf8, find_terminator};
use crate::error::{ErrorKind, ParsingError};

verus! {

/// Mime type id of a redirect entry.
pub const MIME_REDIRECT: u16 = 0xffff;

/// Mime type id of a link target entry.
pub const MIME_LINK_TARGET: u16 = 0xfffe;

/// Mime type id of a deleted entry.
pub const MIME_DELETED: u16 = 0xfffd;

#[derive(Debug, PartialEq)]
pub enum MimeType {
    /// A special "MimeType" that represents a redirection
    Redirect,
    LinkTarget,
    DeletedEntry,
    Type(String),
}

/// The mathematical value of a `MimeType`.
pub enum MimeModel {
    Redirect,
    LinkTarget,
    DeletedEntry,
    Type(Seq<char>),
}

impl View for MimeType {
    type V = MimeModel;

    open spec fn view(&self) -> MimeModel {
        match self {
            MimeType::Redirect => MimeModel::Redirect,
            MimeType::LinkTarget => MimeModel::LinkTarget,
            MimeType::DeletedEntry => MimeModel::DeletedEntry,
            MimeType::Type(s) => MimeModel::Type(s@),
        }
    }
}

#[derive(Debug, PartialEq, Eq, Clone, Copy, Structural)]
pub enum Target {
    /// Redirect specified as a URL index
    Redirect(u32),
    /// Cluster index and blob index
    Cluster(u32, u32),
}

/// Holds metadata about an article
#[derive(Debug)]
pub struct DirectoryEntry {
    pub mime_type: MimeType,
    pub namespace: char,
    pub revision: u32,
    pub url: String,
    pub title: String,
    pub target: Option<Target>,
}

/// The fields of a directory entry as they stand in the archive, strings as raw bytes.
pub struct EntryModel {
    pub mime: MimeModel,
    pub namespace: u8,
    pub revision: u32,
    pub target: Option<Target>,
    pub url: Seq<u8>,
    pub title: Seq<u8>,
}

/// What mime type id `id` stands for, given the archive's mime table.
pub open spec fn mime_of(table: Seq<Seq<char>>, id: int) -> Option<MimeModel> {
    if id == 0xffff {
        Some(MimeModel::Redirect)
    } else if id == 0xfffe {
        Some(MimeModel::LinkTarget)
    } else if id == 0xfffd {
        Some(MimeModel::DeletedEntry)
    } else if 0 <= id < table.len() {
        Some(MimeModel::Type(table[id]))
    } else {
        None
    }
}

/// The target stored after the fixed fields, and where the URL string starts.
pub open spec fn target_layout(m: MimeModel, s: Seq<u8>) -> (Option<Target>, int) {
    match m {
        MimeModel::Redirect => (Some(Target::Redirect(le32(s, 8) as u32)), 12),
        MimeModel::LinkTarget => (None, 8),
        MimeModel::DeletedEntry => (None, 8),
        MimeModel::Type(_) => (Some(Target::Cluster(le32(s, 8) as u32, le32(s, 12) as u32)), 16),
    }
}

/// Decoding the directory entry at the start of `s`: the entry, or the kind of failure.
pub open spec fn parse_entry(table: Seq<Seq<char>>, s: Seq<u8>) -> Result<EntryModel, ErrorKind> {
    if s.len() < 2 {
        Err(ErrorKind::Truncated)
    } else {
        match mime_of(table, le16(s, 0)) {
            None => Err(ErrorKind::MimeLookup),
            Some(m) => {
                let (target, url_start) = target_layout(m, s);
                if s.len() < url_start {
                    Err(ErrorKind::Truncated)
                } else {
                    match find_nul(s, url_start) {
                        None => Err(ErrorKind::Truncated),
                        Some(url_end) => {
                            let url = s.subrange(url_start, url_end);
                            if utf8_text(url) is None {
                                Err(ErrorKind::Encoding)
                            } else {
                                match find_nul(s, url_end + 1) {
                                    None => Err(ErrorKind::Truncated),
                                    Some(title_end) => {
                                        let title = s.subrange(url_end + 1, title_end);
                                        if utf8_text(title) is None {
                                            Err(ErrorKind::Encoding)
                                        } else {
                                            Ok(
                                                EntryModel {
                                                    mime: m,
                                                    namespace: s[3],
                                                    revision: le32(s, 4) as u32,
                                                    target,
                                                    url,
                                                    title,
                                                },
                                            )
                                        }
                                    },
                                }
                            }
                        },
                    }
                }
            },
        }
    }
}

/// The texts of a sequence of strings.
pub open spec fn texts(v: Seq<String>) -> Seq<Seq<char>> {
    v.map_values(|t: String| t@)
}

/// The text holds no NUL character.
pub open spec fn nul_free(t: Seq<char>) -> bool {
    forall|j: int| 0 <= j < t.len() ==> t[j] != '\0'
}

impl DirectoryEntry {
    /// This entry is the decoded form of `m`.
    pub open spec fn decodes(&self, m: EntryModel) -> bool {
        &&& self.mime_type@ == m.mime
        &&& self.namespace == m.namespace as char
        &&& self.revision == m.revision
        &&& self.target == m.target
        &&& self.url@ == utf8_text(m.url)->0
        &&& self.title@ == utf8_text(m.title)->0
    }
}

/// Looks up a mime type id in the mime table.
pub fn mime_lookup(table: &Vec<String>, id: u16) -> (r: Option<MimeType>)
    ensures
        r is Some <==> mime_of(texts(table@), id as int) is Some,
        r matches Some(m) ==> m@ == mime_of(texts(table@), id as int)->0,
{
    if id == MIME_REDIRECT {
        Some(MimeType::Redirect)
    } else if id == MIME_LINK_TARGET {
        Some(MimeType::LinkTarget)
    } else if id == MIME_DELETED {
        Some(MimeType::DeletedEntry)
    } else if (id as usize) < table.len() {
        Some(MimeType::Type(table[id as usize].clone()))
    } else {
        None
    }
}

/// Reads the null-terminated UTF-8 string that starts at `start`: its text and
/// the position of its terminator.
pub(crate) fn read_cstr(s: &[u8], start: usize) -> (r: Result<(String, usize), ParsingError>)
    requires
        start <= s@.len(),
    ensures
        match find_nul(s@, start as int) {
            None => r matches Err(e) && e.kind == ErrorKind::Truncated,
            Some(end) => match utf8_text(s@.subrange(start as int, end)) {
                None => r matches Err(e) && e.kind == ErrorKind::Encoding,
                Some(t) => r matches Ok((text, e)) && e == end && text@ == t && nul_free(t),
            },
        },
{
    proof {
        lemma_find_nul(s@, start as int);
    }
    match find_terminator(s, start) {
        None => Err(ParsingError::new(ErrorKind::Truncated)),
        Some(end) => {
            let bytes = slice_to_vec(slice_subrange(s, start, end));
            match text_from_utf8(bytes) {
                None => Err(ParsingError::new(ErrorKind::Encoding)),
                Some(text) => Ok((text, end)),
            }
        },
    }
}

/// Decodes the directory entry at the start of `s` against the given mime table.
pub fn decode_entry(table: &Vec<String>, s: &[u8]) -> (r: Result<DirectoryEntry, ParsingError>)
    ensures
        match parse_entry(texts(table@), s@) {
            Ok(m) => r matches Ok(e) && e.decodes(m),
            Err(k) => r matches Err(e) && e.kind == k,
        },
        r matches Ok(e) ==> nul_free(e.url@) && nul_free(e.title@),
{
    if s.len() < 2 {
        return Err(ParsingError::new(ErrorKind::Truncated));
    }
    let mime_id = read_u16_at(s, 0);
    let mime_type = match mime_lookup(table, mime_id) {
        Some(m) => m,
        None => return Err(ParsingError::new(ErrorKind::MimeLookup)),
    };
    if s.len() < 8 {
        return Err(ParsingError::new(ErrorKind::Truncated));
    }
    let namespace = s[3];
    let revision = read_u32_at(s, 4);
    let target: Option<Target>;
    let url_start: usize;
    match mime_type {
        MimeType::Redirect => {
            if s.len() < 12 {
                return Err(ParsingError::new(ErrorKind::Truncated));
            }
            target = Some(Target::Redirect(read_u32_at(s, 8)));
            url_start = 12;
        },
        MimeType::LinkTarget | MimeType::DeletedEntry => {
            target = None;
            url_start = 8;
        },
        MimeType::Type(_) => {
            if s.len() < 16 {
                return Err(ParsingError::new(ErrorKind::Truncated));
            }
            target = Some(Target::Cluster(read_u32_at(s, 8), read_u32_at(s, 12)));
            url_start = 16;
        },
    }
    assert(target_layout(mime_type@, s@) == (target, url_start as int));
    let (url, url_end) = read_cstr(s, url_start)?;
    proof {
        lemma_find_nul(s@, url_start as int);
    }
    let (title, _title_end) = read_cstr(s, url_end + 1)?;
    Ok(
        DirectoryEntry {
            mime_type,
            namespace: namespace as char,
            revision,
            url,
            title,
            target,
        },
    )
}

} // verus!
