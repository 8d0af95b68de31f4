//! The filesystem adapter. It is the cache store, which holds the current
//! generation and swaps it for the next one whole, and it answers the four
//! queries of a filesystem transport from that generation.

use crate::attr::{dir_attr, FileAttr, FileType};
use crate::cache::{
    dir_holding, dir_named, dir_with_ino, file_named, file_with, file_with_ino, first_where,
    is_generation, lemma_first_from, FileView, Folder, FolderCache, FolderView,
};
use crate::ident::{dir_ino_from_hash, folder_ino_of, hash_name, ROOT_INO};
use vstd::prelude::*;
use vstd::slice::slice_subrange;
use vstd::string::*;

verus! {

/// Why a query has no answer.
#[derive(Clone, Copy, Debug, PartialEq, Eq, Structural)]
pub enum FsError {
    /// No entry has the identifier or the name asked for.
    NotFound,
}

/// What one line of a directory listing is.
pub struct DirEntryView {
    pub ino: u64,
    pub offset: i64,
    pub kind: FileType,
    pub name: Seq<char>,
}

/// One line of a directory listing. Its `offset` is the offset from which a
/// later listing goes on after this line.
#[derive(Clone, Debug, PartialEq, Eq)]
pub struct DirEntry {
    pub ino: u64,
    pub offset: i64,
    pub kind: FileType,
    pub name: String,
}

impl View for DirEntry {
    type V = DirEntryView;

    open spec fn view(&self) -> DirEntryView {
        DirEntryView { ino: self.ino, offset: self.offset, kind: self.kind, name: self.name@ }
    }
}

/// The answer to `lookup` in the generation `g`.
pub open spec fn lookup_in(g: Seq<FolderView>, parent: u64, name: Seq<char>) -> Result<
    FileAttr,
    FsError,
> {
    if parent == ROOT_INO {
        if first_where(g, dir_named(name)) is Some {
            Ok(dir_attr(folder_ino_of(name)))
        } else {
            Err(FsError::NotFound)
        }
    } else {
        match first_where(g, dir_with_ino(parent)) {
            Some(i) => match first_where(g[i].files, file_named(name)) {
                Some(j) => Ok(g[i].files[j].attr()),
                None => Err(FsError::NotFound),
            },
            None => Err(FsError::NotFound),
        }
    }
}

/// The answer to `getattr` in the generation `g`.
pub open spec fn getattr_in(g: Seq<FolderView>, ino: u64) -> Result<FileAttr, FsError> {
    if ino == ROOT_INO || first_where(g, dir_with_ino(ino)) is Some {
        Ok(dir_attr(ino))
    } else {
        match file_with(g, ino) {
            Some(f) => Ok(f.attr()),
            None => Err(FsError::NotFound),
        }
    }
}

/// The offset that the line at `position` of a listing carries: the number
/// of lines up to and including it, as far as an offset can count.
pub open spec fn offset_after(position: int) -> i64 {
    if position < i64::MAX {
        (position + 1) as i64
    } else {
        i64::MAX
    }
}

/// The two lines that open every listing: the directory itself, and its
/// parent, the root.
pub open spec fn dot_entries(ino: u64) -> Seq<DirEntryView> {
    seq![
        DirEntryView { ino, offset: 1, kind: FileType::Directory, name: "."@ },
        DirEntryView { ino: ROOT_INO, offset: 2, kind: FileType::Directory, name: ".."@ },
    ]
}

/// One line per directory of the generation, in its order.
pub open spec fn dir_entries(g: Seq<FolderView>) -> Seq<DirEntryView> {
    Seq::new(
        g.len(),
        |i: int|
            DirEntryView {
                ino: g[i].ino(),
                offset: offset_after(2 + i),
                kind: FileType::Directory,
                name: g[i].name,
            },
    )
}

/// One line per file, in the stored order.
pub open spec fn file_entries(files: Seq<FileView>) -> Seq<DirEntryView> {
    Seq::new(
        files.len(),
        |j: int|
            DirEntryView {
                ino: files[j].ino,
                offset: offset_after(2 + j),
                kind: FileType::RegularFile,
                name: files[j].name,
            },
    )
}

/// The whole listing of the directory `ino`, or `None` where `ino` is no
/// directory of the generation.
pub open spec fn listing(g: Seq<FolderView>, ino: u64) -> Option<Seq<DirEntryView>> {
    if ino == ROOT_INO {
        Some(dot_entries(ino) + dir_entries(g))
    } else {
        match first_where(g, dir_with_ino(ino)) {
            Some(i) => Some(dot_entries(ino) + file_entries(g[i].files)),
            None => None,
        }
    }
}

/// What is left of a listing after `offset` lines: nothing at all where the
/// offset is negative or beyond the end.
pub open spec fn after_offset(all: Seq<DirEntryView>, offset: int) -> Seq<DirEntryView> {
    if 0 <= offset <= all.len() {
        all.skip(offset)
    } else {
        Seq::empty()
    }
}

/// The answer to `readdir` in the generation `g`.
pub open spec fn readdir_in(g: Seq<FolderView>, ino: u64, offset: int) -> Result<
    Seq<DirEntryView>,
    FsError,
> {
    match listing(g, ino) {
        Some(all) => Ok(after_offset(all, offset)),
        None => Err(FsError::NotFound),
    }
}

/// The bytes of `content` from `offset` on, `size` of them at most.
pub open spec fn byte_range(content: Seq<u8>, offset: int, size: int) -> Seq<u8> {
    if 0 <= offset < content.len() && 0 <= size {
        if offset + size < content.len() {
            content.subrange(offset, offset + size)
        } else {
            content.subrange(offset, content.len() as int)
        }
    } else {
        Seq::empty()
    }
}

/// The answer to `read` in the generation `g`.
pub open spec fn read_in(g: Seq<FolderView>, ino: u64, offset: int, size: int) -> Result<
    Seq<u8>,
    FsError,
> {
    match file_with(g, ino) {
        Some(f) => Ok(byte_range(f.content, offset, size)),
        None => Err(FsError::NotFound),
    }
}

/// The lines of a listing.
pub open spec fn entry_views(entries: Seq<DirEntry>) -> Seq<DirEntryView> {
    entries.map_values(|e: DirEntry| e@)
}

/// What `readdir` returned, as lines.
pub open spec fn listed(result: Result<Vec<DirEntry>, FsError>) -> Result<
    Seq<DirEntryView>,
    FsError,
> {
    match result {
        Ok(entries) => Ok(entry_views(entries@)),
        Err(e) => Err(e),
    }
}

/// What `read` returned, as bytes.
pub open spec fn bytes_read(result: Result<&[u8], FsError>) -> Result<Seq<u8>, FsError> {
    match result {
        Ok(data) => Ok(data@),
        Err(e) => Err(e),
    }
}

fn push_entry(entries: &mut Vec<DirEntry>, ino: u64, offset: i64, kind: FileType, name: &str)
    ensures
        entry_views(final(entries)@) == entry_views(old(entries)@).push(
            DirEntryView { ino, offset, kind, name: name@ },
        ),
{
    entries.push(DirEntry { ino, offset, kind, name: name.to_owned() });
}

fn child_offset(index: usize) -> (offset: i64)
    ensures
        offset == offset_after(2 + index),
{
    if index as u64 <= i64::MAX as u64 - 3 {
        (index as u64 + 3) as i64
    } else {
        i64::MAX
    }
}

fn push_dirs(cache: &FolderCache, from: usize, entries: &mut Vec<DirEntry>)
    requires
        from <= cache@.len(),
    ensures
        entry_views(final(entries)@) == entry_views(old(entries)@) + dir_entries(cache@).skip(
            from as int,
        ),
{
    let n: usize = cache.len();
    let mut i: usize = from;
    while i < n
        invariant
            from <= i <= n,
            n == cache@.len(),
            entry_views(entries@) == entry_views(old(entries)@) + dir_entries(cache@).subrange(
                from as int,
                i as int,
            ),
        decreases n - i,
    {
        match cache.folder(i) {
            Some(folder) => {
                push_entry(
                    entries,
                    folder.ino(),
                    child_offset(i),
                    FileType::Directory,
                    folder.name(),
                );
            },
            None => {},
        }
        i += 1;
    }
}

fn push_files(folder: &Folder, from: usize, entries: &mut Vec<DirEntry>)
    requires
        from <= folder@.files.len(),
    ensures
        entry_views(final(entries)@) == entry_views(old(entries)@) + file_entries(
            folder@.files,
        ).skip(from as int),
{
    let n: usize = folder.len();
    let mut j: usize = from;
    while j < n
        invariant
            from <= j <= n,
            n == folder@.files.len(),
            entry_views(entries@) == entry_views(old(entries)@) + file_entries(
                folder@.files,
            ).subrange(from as int, j as int),
        decreases n - j,
    {
        match folder.file(j) {
            Some(file) => {
                push_entry(
                    entries,
                    file.ino(),
                    child_offset(j),
                    FileType::RegularFile,
                    file.name(),
                );
            },
            None => {},
        }
        j += 1;
    }
}

/// The adapter between the cache and a filesystem transport. It holds one
/// generation at a time and answers every query from that generation alone.
#[derive(Debug)]
pub struct TelegramFS {
    cache: FolderCache,
}

impl View for TelegramFS {
    type V = Seq<FolderView>;

    closed spec fn view(&self) -> Seq<FolderView> {
        self.cache@
    }
}

impl TelegramFS {
    /// What holds of the adapter at all times: what it serves is a
    /// generation.
    #[verifier::type_invariant]
    pub open spec fn valid(self) -> bool {
        is_generation(self@)
    }

    /// The adapter at startup: no conversation is known yet.
    pub fn init() -> (fs: TelegramFS)
        ensures
            fs@ == Seq::<FolderView>::empty(),
            is_generation(fs@),
    {
        TelegramFS { cache: FolderCache::new() }
    }

    /// The directory identifier of the conversation called `name`. It
    /// depends on the name alone and is never the root's.
    pub fn folder_ino(name: &str) -> (ino: u64)
        ensures
            ino == folder_ino_of(name@),
            ino != ROOT_INO,
    {
        dir_ino_from_hash(hash_name(name))
    }

    /// The generation that the queries are answered from.
    pub fn snapshot(&self) -> (cache: &FolderCache)
        ensures
            cache@ == self@,
            is_generation(self@),
    {
        proof {
            use_type_invariant(self);
        }
        &self.cache
    }

    /// Puts a new generation in the place of the current one, whole.
    pub fn replace(&mut self, generation: FolderCache)
        ensures
            final(self)@ == generation@,
            is_generation(final(self)@),
    {
        proof {
            use_type_invariant(&generation);
        }
        self.cache = generation;
    }

    /// Resolves `name` inside the directory `parent`: under the root, the
    /// directory of the conversation of that name; under a conversation's
    /// directory, its first file of that name.
    pub fn lookup(&self, parent: u64, name: &str) -> (result: Result<FileAttr, FsError>)
        ensures
            result == lookup_in(self@, parent, name@),
    {
        if parent == ROOT_INO {
            match self.cache.position_by_name(name) {
                Some(_) => Ok(FileAttr::directory(Self::folder_ino(name))),
                None => Err(FsError::NotFound),
            }
        } else {
            match self.cache.position_by_ino(parent) {
                Some(i) => match self.cache.folder(i) {
                    Some(folder) => match folder.find_by_name(name) {
                        Some(file) => Ok(file.attr()),
                        None => Err(FsError::NotFound),
                    },
                    None => Err(FsError::NotFound),
                },
                None => Err(FsError::NotFound),
            }
        }
    }

    /// The metadata of the entry `ino`: of the root, of a conversation's
    /// directory, or of a file, looked for in that order.
    pub fn getattr(&self, ino: u64) -> (result: Result<FileAttr, FsError>)
        ensures
            result == getattr_in(self@, ino),
    {
        if ino == ROOT_INO {
            return Ok(FileAttr::directory(ROOT_INO));
        }
        if self.cache.position_by_ino(ino).is_some() {
            return Ok(FileAttr::directory(ino));
        }
        match self.cache.find_file(ino) {
            Some(file) => Ok(file.attr()),
            None => Err(FsError::NotFound),
        }
    }

    /// Lists the directory `ino` from the line `offset` on: `.` and `..`,
    /// then the conversations under the root, or the files of a conversation
    /// in their stored order.
    pub fn readdir(&self, ino: u64, offset: i64) -> (result: Result<Vec<DirEntry>, FsError>)
        ensures
            listed(result) == readdir_in(self@, ino, offset as int),
    {
        let folder: Option<&Folder> = if ino == ROOT_INO {
            None
        } else {
            match self.cache.position_by_ino(ino) {
                Some(i) => {
                    let found = self.cache.folder(i);
                    if found.is_none() {
                        return Err(FsError::NotFound);
                    }
                    found
                },
                None => {
                    return Err(FsError::NotFound);
                },
            }
        };
        let children: usize = match folder {
            Some(f) => f.len(),
            None => self.cache.len(),
        };
        let ghost all = listing(self@, ino).unwrap();
        let mut entries: Vec<DirEntry> = Vec::new();
        assert(entry_views(entries@) =~= Seq::<DirEntryView>::empty());
        if offset < 0 {
            return Ok(entries);
        }
        if offset == 0 {
            push_entry(&mut entries, ino, 1, FileType::Directory, ".");
        }
        if offset <= 1 {
            push_entry(&mut entries, ROOT_INO, 2, FileType::Directory, "..");
        }
        let from: u64 = if offset > 2 {
            (offset - 2) as u64
        } else {
            0
        };
        if from <= children as u64 {
            match folder {
                Some(f) => push_files(f, from as usize, &mut entries),
                None => push_dirs(&self.cache, from as usize, &mut entries),
            }
            assert(entry_views(entries@) =~= all.skip(offset as int));
        }
        Ok(entries)
    }

    /// Reads up to `size` bytes of the file `ino`, from the byte `offset`
    /// on. Beyond the end of the file there is nothing to read, which is no
    /// error.
    pub fn read(&self, ino: u64, offset: i64, size: u32) -> (result: Result<&[u8], FsError>)
        ensures
            bytes_read(result) == read_in(self@, ino, offset as int, size as int),
    {
        match self.cache.find_file(ino) {
            Some(file) => {
                let data = file.content().as_slice();
                let len: usize = data.len();
                if offset < 0 || offset as u64 >= len as u64 {
                    let nothing = slice_subrange(data, 0, 0);
                    assert(nothing@ =~= Seq::<u8>::empty());
                    Ok(nothing)
                } else {
                    let start: usize = offset as usize;
                    let end: usize = if (size as usize) < len - start {
                        start + size as usize
                    } else {
                        len
                    };
                    Ok(slice_subrange(data, start, end))
                }
            },
            None => Err(FsError::NotFound),
        }
    }
}

/// Listing the root from the start gives `.`, `..` and then one line per
/// conversation of the generation, in its order and under the conversation's
/// directory identifier: two lines more than there are conversations, and no
/// conversation's name on two of them.
pub proof fn lemma_root_listing(g: Seq<FolderView>)
    requires
        is_generation(g),
    ensures
        readdir_in(g, ROOT_INO, 0) matches Ok(all) && {
            &&& all.len() == 2 + g.len()
            &&& all[0] == (DirEntryView {
                ino: ROOT_INO,
                offset: 1,
                kind: FileType::Directory,
                name: "."@,
            })
            &&& all[1] == (DirEntryView {
                ino: ROOT_INO,
                offset: 2,
                kind: FileType::Directory,
                name: ".."@,
            })
            &&& forall|i: int|
                0 <= i < g.len() ==> #[trigger] all[2 + i] == (DirEntryView {
                    ino: folder_ino_of(g[i].name),
                    offset: offset_after(2 + i),
                    kind: FileType::Directory,
                    name: g[i].name,
                })
            &&& forall|i: int, j: int|
                0 <= i < j < g.len() ==> (#[trigger] all[2 + i]).name != (#[trigger] all[2
                    + j]).name
        },
{
}

/// Listing a conversation's directory from the start gives `.`, `..` and then
/// exactly the files recorded for the conversation, in their stored order.
pub proof fn lemma_folder_listing(g: Seq<FolderView>, ino: u64, i: int)
    requires
        ino != ROOT_INO,
        first_where(g, dir_with_ino(ino)) == Some(i),
    ensures
        0 <= i < g.len(),
        readdir_in(g, ino, 0) matches Ok(all) && {
            &&& all.len() == 2 + g[i].files.len()
            &&& all[0] == (DirEntryView { ino, offset: 1, kind: FileType::Directory, name: "."@ })
            &&& all[1] == (DirEntryView {
                ino: ROOT_INO,
                offset: 2,
                kind: FileType::Directory,
                name: ".."@,
            })
            &&& forall|j: int|
                0 <= j < g[i].files.len() ==> #[trigger] all[2 + j] == (DirEntryView {
                    ino: g[i].files[j].ino,
                    offset: offset_after(2 + j),
                    kind: FileType::RegularFile,
                    name: g[i].files[j].name,
                })
        },
{
    lemma_first_from(g, dir_with_ino(ino), 0);
}

/// A listing that is taken up again after some of its lines goes on where it
/// stopped: asking from `offset + emitted` gives what asking from `offset`
/// gives, without its first `emitted` lines. With `offset` zero this is the
/// unpaginated listing.
pub proof fn lemma_readdir_resumes(g: Seq<FolderView>, ino: u64, offset: int, emitted: int)
    requires
        0 <= offset,
        0 <= emitted,
    ensures
        match readdir_in(g, ino, offset) {
            Ok(lines) => emitted <= lines.len() ==> readdir_in(g, ino, offset + emitted) == Ok::<
                Seq<DirEntryView>,
                FsError,
            >(lines.skip(emitted)),
            Err(e) => readdir_in(g, ino, offset + emitted) == Err::<Seq<DirEntryView>, FsError>(
                e,
            ),
        },
{
    match listing(g, ino) {
        Some(all) => {
            let lines = after_offset(all, offset);
            if emitted <= lines.len() {
                assert(after_offset(all, offset + emitted) =~= lines.skip(emitted));
            }
        },
        None => {},
    }
}

/// Every line of a listing carries the offset at which the listing goes on
/// after it: a listing asked for from the offset of one of its lines is what
/// followed that line.
pub proof fn lemma_readdir_resumes_after_line(g: Seq<FolderView>, ino: u64, offset: int, line: int)
    requires
        0 <= offset,
        readdir_in(g, ino, offset) matches Ok(lines) && 0 <= line < lines.len(),
        offset + line < i64::MAX,
    ensures
        readdir_in(g, ino, offset) matches Ok(lines) && lines[line].offset == offset + line + 1
            && readdir_in(g, ino, lines[line].offset as int) == Ok::<Seq<DirEntryView>, FsError>(
            lines.skip(line + 1),
        ),
{
    lemma_readdir_resumes(g, ino, offset, line + 1);
}

/// A read never gives more bytes than were asked for and never goes past the
/// end of the file: what it gives are the file's bytes from `offset` on. At
/// or beyond the end it gives nothing, and from the start with a size that
/// covers the file it gives the whole content.
pub proof fn lemma_read_stays_within(g: Seq<FolderView>, ino: u64, offset: int, size: int)
    requires
        0 <= size,
    ensures
        match read_in(g, ino, offset, size) {
            Ok(data) => file_with(g, ino) matches Some(f) && {
                &&& data.len() <= size
                &&& data.len() > 0 ==> 0 <= offset && offset + data.len() <= f.content.len()
                &&& forall|k: int| 0 <= k < data.len() ==> data[k] == f.content[offset + k]
                &&& offset >= f.content.len() ==> data.len() == 0
                &&& offset == 0 && size >= f.content.len() ==> data == f.content
            },
            Err(e) => e == FsError::NotFound && file_with(g, ino) is None,
        },
{
}

/// Every query is answered from the current generation alone: an identifier
/// that is not the root's and that no directory and no file of the generation
/// has is not found, whatever an earlier generation made of it.
pub proof fn lemma_unassigned_is_not_found(
    g: Seq<FolderView>,
    ino: u64,
    name: Seq<char>,
    offset: int,
    size: int,
)
    requires
        ino != ROOT_INO,
        forall|i: int| 0 <= i < g.len() ==> (#[trigger] g[i]).ino() != ino,
        forall|i: int, j: int|
            0 <= i < g.len() && 0 <= j < g[i].files.len() ==> (#[trigger] g[i].files[j]).ino
                != ino,
    ensures
        lookup_in(g, ino, name) == Err::<FileAttr, FsError>(FsError::NotFound),
        getattr_in(g, ino) == Err::<FileAttr, FsError>(FsError::NotFound),
        readdir_in(g, ino, offset) == Err::<Seq<DirEntryView>, FsError>(FsError::NotFound),
        read_in(g, ino, offset, size) == Err::<Seq<u8>, FsError>(FsError::NotFound),
{
    lemma_first_from(g, dir_with_ino(ino), 0);
    lemma_first_from(g, dir_holding(ino), 0);
    match first_where(g, dir_holding(ino)) {
        Some(i) => {
            lemma_first_from(g[i].files, file_with_ino(ino), 0);
        },
        None => {},
    }
}

/// Whether a directory of the generation has the identifier `ino`.
pub open spec fn is_dir_ino(g: Seq<FolderView>, ino: u64) -> bool {
    exists|i: int| 0 <= i < g.len() && (#[trigger] g[i]).ino() == ino
}

/// Whether a file of the generation has the identifier `ino`.
pub open spec fn is_file_ino(g: Seq<FolderView>, ino: u64) -> bool {
    exists|i: int, j: int|
        0 <= i < g.len() && 0 <= j < g[i].files.len() && (#[trigger] g[i].files[j]).ino == ino
}

/// The queries are answered for the entries of the current generation and for
/// no others. Metadata is had of the root, of a directory and of a file, and
/// carries the identifier asked for; a listing is had of the root and of a
/// directory; bytes are had of a file. What a lookup finds under the root is
/// a directory of the generation, and what it finds elsewhere is a file of it.
pub proof fn lemma_answers_are_of_the_generation(
    g: Seq<FolderView>,
    ino: u64,
    name: Seq<char>,
    offset: int,
    size: int,
)
    ensures
        getattr_in(g, ino) is Ok <==> ino == ROOT_INO || is_dir_ino(g, ino) || is_file_ino(g, ino),
        getattr_in(g, ino) matches Ok(attr) ==> attr.ino == ino,
        readdir_in(g, ino, offset) is Ok <==> ino == ROOT_INO || is_dir_ino(g, ino),
        read_in(g, ino, offset, size) is Ok <==> is_file_ino(g, ino),
        lookup_in(g, ino, name) matches Ok(attr) ==> if ino == ROOT_INO {
            attr.ino == folder_ino_of(name) && is_dir_ino(g, attr.ino)
        } else {
            is_dir_ino(g, ino) && is_file_ino(g, attr.ino)
        },
{
    lemma_first_from(g, dir_with_ino(ino), 0);
    lemma_first_from(g, dir_named(name), 0);
    lemma_first_from(g, dir_holding(ino), 0);
    match first_where(g, dir_holding(ino)) {
        Some(i) => {
            lemma_first_from(g[i].files, file_with_ino(ino), 0);
        },
        None => {
            assert forall|i: int, j: int| 0 <= i < g.len() && 0 <= j < g[i].files.len() implies (
            #[trigger] g[i].files[j]).ino != ino by {
                lemma_first_from(g[i].files, file_with_ino(ino), 0);
            }
        },
    }
    match first_where(g, dir_with_ino(ino)) {
        Some(i) => {
            lemma_first_from(g[i].files, file_named(name), 0);
        },
        None => {},
    }
}

} // verus!
