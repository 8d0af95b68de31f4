//! The cached tree: files, the directory of one conversation, and a whole
//! generation of directories.

use crate::attr::{file_attr, FileAttr};
use crate::ident::{
    dir_ino_from_hash, file_ino_at, file_ino_of, folder_ino_of, hash_name, ROOT_INO,
};
use crate::media::{
    file_extension, file_name_text, joined, resolve, Download, RemoteMediaItem,
};
use std::sync::Arc;
use vstd::prelude::*;
use vstd::string::*;

verus! {

/// What a cached file is: its identifier, its display name and its bytes.
pub struct FileView {
    pub ino: u64,
    pub name: Seq<char>,
    pub content: Seq<u8>,
}

impl FileView {
    /// The metadata reported for the file.
    pub open spec fn attr(self) -> FileAttr {
        file_attr(self.ino, self.content.len() as u64)
    }
}

/// One media item, downloaded in full. Its metadata always agrees with its
/// identifier and with the length of its content.
#[derive(Debug)]
pub struct CachedFile {
    ino: u64,
    name: String,
    content: Arc<Vec<u8>>,
    attr: FileAttr,
}

impl View for CachedFile {
    type V = FileView;

    closed spec fn view(&self) -> FileView {
        FileView { ino: self.ino, name: self.name@, content: self.content@ }
    }
}

impl CachedFile {
    #[verifier::type_invariant]
    spec fn consistent(self) -> bool {
        self.attr == file_attr(self.ino, self.content@.len() as u64)
    }

    /// A file with the given identifier, name and content.
    pub fn new(ino: u64, name: String, content: Vec<u8>) -> (file: CachedFile)
        ensures
            file@ == (FileView { ino, name: name@, content: content@ }),
    {
        let attr = FileAttr::regular_file(ino, content.len() as u64);
        CachedFile { ino, name, content: Arc::new(content), attr }
    }

    /// The file's identifier.
    pub fn ino(&self) -> (ino: u64)
        ensures
            ino == self@.ino,
    {
        self.ino
    }

    /// The file's display name.
    pub fn name(&self) -> (name: &str)
        ensures
            name@ == self@.name,
    {
        self.name.as_str()
    }

    /// The content, shared with the cache.
    pub fn content(&self) -> (content: &Arc<Vec<u8>>)
        ensures
            content@ == self@.content,
    {
        &self.content
    }

    /// The file's metadata.
    pub fn attr(&self) -> (attr: FileAttr)
        ensures
            attr == self@.attr(),
    {
        proof {
            use_type_invariant(self);
        }
        self.attr
    }
}

/// The first position at or after `from` whose element satisfies `pred`.
pub open spec fn first_from<A>(s: Seq<A>, pred: spec_fn(A) -> bool, from: int) -> Option<int>
    decreases s.len() - from,
{
    if from < 0 || from >= s.len() {
        None
    } else if pred(s[from]) {
        Some(from)
    } else {
        first_from(s, pred, from + 1)
    }
}

/// The first position whose element satisfies `pred`.
pub open spec fn first_where<A>(s: Seq<A>, pred: spec_fn(A) -> bool) -> Option<int> {
    first_from(s, pred, 0)
}

/// What `first_from` finds is a position that satisfies the predicate, with
/// none before it from `from` on; it finds nothing only where nothing is.
pub proof fn lemma_first_from<A>(s: Seq<A>, pred: spec_fn(A) -> bool, from: int)
    requires
        0 <= from,
    ensures
        match first_from(s, pred, from) {
            Some(i) => from <= i < s.len() && pred(s[i]) && forall|k: int|
                from <= k < i ==> !pred(#[trigger] s[k]),
            None => forall|k: int| from <= k < s.len() ==> !pred(#[trigger] s[k]),
        },
    decreases s.len() - from,
{
    if from < s.len() && !pred(s[from]) {
        lemma_first_from(s, pred, from + 1);
    }
}

/// What a directory is: the conversation's name and its files in order.
pub struct FolderView {
    pub name: Seq<char>,
    pub files: Seq<FileView>,
}

impl FolderView {
    /// The directory's identifier.
    pub open spec fn ino(self) -> u64 {
        folder_ino_of(self.name)
    }

    /// The identifier that the next file of the directory would get.
    pub open spec fn next_ino(self) -> int {
        file_ino_of(self.ino(), self.files.len() as int)
    }

    /// A directory has a name, and its files are numbered from the
    /// identifier after its own, without a gap.
    pub open spec fn well_formed(self) -> bool {
        &&& self.name.len() > 0
        &&& forall|j: int|
            0 <= j < self.files.len() ==> (#[trigger] self.files[j]).ino == file_ino_of(
                self.ino(),
                j,
            )
    }

    /// The directory after one media item of the conversation has been dealt
    /// with: a transfer that came through adds a file, a failed one adds
    /// nothing.
    pub open spec fn with_media(self, item: RemoteMediaItem, download: Download) -> FolderView {
        match download {
            Download::Complete(chunks) => self.with_file(
                file_name_text(item.message_id as int, file_extension(item.media)),
                joined(chunks@),
            ),
            Download::Failed => self,
        }
    }

    /// The directory with one more file at its end. Where no identifier is
    /// left for the file, the directory stays as it is.
    pub open spec fn with_file(self, name: Seq<char>, content: Seq<u8>) -> FolderView {
        if self.next_ino() <= u64::MAX {
            FolderView {
                name: self.name,
                files: self.files.push(FileView { ino: self.next_ino() as u64, name, content }),
            }
        } else {
            self
        }
    }
}

/// The directory of one conversation.
#[derive(Debug)]
pub struct Folder {
    name: String,
    ino: u64,
    files: Vec<CachedFile>,
}

impl View for Folder {
    type V = FolderView;

    closed spec fn view(&self) -> FolderView {
        FolderView { name: self.name@, files: self.files@.map_values(|f: CachedFile| f@) }
    }
}

impl Folder {
    #[verifier::type_invariant]
    spec fn inv(self) -> bool {
        &&& self.ino == folder_ino_of(self.name@)
        &&& self@.well_formed()
    }

    /// An empty directory for the conversation called `name`. A conversation
    /// without a name gets none.
    pub fn begin(name: &str) -> (folder: Option<Folder>)
        ensures
            folder is None <==> name@.len() == 0,
            folder matches Some(f) ==> f@ == (FolderView { name: name@, files: Seq::empty() }),
            folder matches Some(f) ==> f@.well_formed(),
    {
        if name.is_empty() {
            None
        } else {
            let ino: u64 = dir_ino_from_hash(hash_name(name));
            let folder = Folder { name: name.to_owned(), ino, files: Vec::new() };
            assert(folder@.files =~= Seq::empty());
            Some(folder)
        }
    }

    /// The conversation's name.
    pub fn name(&self) -> (name: &str)
        ensures
            name@ == self@.name,
    {
        self.name.as_str()
    }

    /// The directory's identifier.
    pub fn ino(&self) -> (ino: u64)
        ensures
            ino == self@.ino(),
    {
        proof {
            use_type_invariant(self);
        }
        self.ino
    }

    /// The number of files.
    pub fn len(&self) -> (len: usize)
        ensures
            len == self@.files.len(),
    {
        self.files.len()
    }

    /// The file at position `index`, if there is one.
    pub fn file(&self, index: usize) -> (file: Option<&CachedFile>)
        ensures
            file is Some <==> index < self@.files.len(),
            file matches Some(f) ==> f@ == self@.files[index as int],
    {
        if index < self.files.len() {
            Some(&self.files[index])
        } else {
            None
        }
    }

    /// The first file called `name`.
    pub fn find_by_name(&self, name: &str) -> (file: Option<&CachedFile>)
        ensures
            match file {
                Some(f) => first_where(self@.files, file_named(name@)) matches Some(j) && f@
                    == self@.files[j],
                None => first_where(self@.files, file_named(name@)) is None,
            },
    {
        let wanted = name.to_owned();
        let mut j: usize = 0;
        while j < self.files.len()
            invariant
                j <= self.files.len(),
                wanted@ == name@,
                first_where(self@.files, file_named(name@)) == first_from(
                    self@.files,
                    file_named(name@),
                    j as int,
                ),
            decreases self.files.len() - j,
        {
            if self.files[j].name == wanted {
                return Some(&self.files[j]);
            }
            j += 1;
        }
        None
    }

    /// The first file with the identifier `ino`.
    pub fn find_by_ino(&self, ino: u64) -> (file: Option<&CachedFile>)
        ensures
            match file {
                Some(f) => first_where(self@.files, file_with_ino(ino)) matches Some(j) && f@
                    == self@.files[j],
                None => first_where(self@.files, file_with_ino(ino)) is None,
            },
    {
        let mut j: usize = 0;
        while j < self.files.len()
            invariant
                j <= self.files.len(),
                first_where(self@.files, file_with_ino(ino)) == first_from(
                    self@.files,
                    file_with_ino(ino),
                    j as int,
                ),
            decreases self.files.len() - j,
        {
            if self.files[j].ino == ino {
                return Some(&self.files[j]);
            }
            j += 1;
        }
        None
    }

    /// Adds a file at the end, under the next free identifier. Where none is
    /// left, the directory stays as it is and the answer is `false`.
    pub fn add_file(&mut self, name: String, content: Vec<u8>) -> (added: bool)
        ensures
            final(self)@ == old(self)@.with_file(name@, content@),
            added <==> old(self)@.next_ino() <= u64::MAX,
            final(self)@.well_formed(),
    {
        proof {
            use_type_invariant(&*self);
        }
        match file_ino_at(self.ino, self.files.len()) {
            Some(ino) => {
                let ghost before = self@;
                let mut files: Vec<CachedFile> = Vec::new();
                core::mem::swap(&mut files, &mut self.files);
                files.push(CachedFile::new(ino, name, content));
                proof {
                    let after = files@.map_values(|f: CachedFile| f@);
                    assert(after =~= before.files.push(
                        FileView { ino, name: name@, content: content@ },
                    ));
                }
                self.files = files;
                true
            },
            None => false,
        }
    }

    /// Takes in one media item of the conversation and the outcome of its
    /// transfer. A transfer that came through becomes the directory's next
    /// file; a failed one is passed over, and so is an item for which no
    /// identifier is left.
    pub fn add_media(&mut self, item: &RemoteMediaItem, download: &Download) -> (added: bool)
        ensures
            final(self)@ == old(self)@.with_media(*item, *download),
            added <==> download is Complete && old(self)@.next_ino() <= u64::MAX,
            final(self)@.well_formed(),
    {
        proof {
            use_type_invariant(&*self);
        }
        match download {
            Download::Complete(chunks) => {
                if file_ino_at(self.ino, self.files.len()).is_none() {
                    return false;
                }
                let resolved = resolve(item, chunks);
                self.add_file(resolved.file_name, resolved.payload)
            },
            Download::Failed => false,
        }
    }
}

/// The directories called `name`.
pub open spec fn dir_named(name: Seq<char>) -> spec_fn(FolderView) -> bool {
    |f: FolderView| f.name == name
}

/// The directories with the identifier `ino`.
pub open spec fn dir_with_ino(ino: u64) -> spec_fn(FolderView) -> bool {
    |f: FolderView| f.ino() == ino
}

/// The files called `name`.
pub open spec fn file_named(name: Seq<char>) -> spec_fn(FileView) -> bool {
    |f: FileView| f.name == name
}

/// The files with the identifier `ino`.
pub open spec fn file_with_ino(ino: u64) -> spec_fn(FileView) -> bool {
    |f: FileView| f.ino == ino
}

/// The directories that hold a file with the identifier `ino`.
pub open spec fn dir_holding(ino: u64) -> spec_fn(FolderView) -> bool {
    |f: FolderView| first_where(f.files, file_with_ino(ino)) is Some
}

/// The first file with the identifier `ino` in the first directory that holds
/// one.
pub open spec fn file_with(g: Seq<FolderView>, ino: u64) -> Option<FileView> {
    match first_where(g, dir_holding(ino)) {
        Some(i) => match first_where(g[i].files, file_with_ino(ino)) {
            Some(j) => Some(g[i].files[j]),
            None => None,
        },
        None => None,
    }
}

/// A generation is a sequence of directories in which every directory is
/// well formed and holds at least one file, and no name occurs twice.
pub open spec fn is_generation(g: Seq<FolderView>) -> bool {
    &&& forall|i: int|
        0 <= i < g.len() ==> (#[trigger] g[i]).well_formed() && g[i].files.len() > 0
    &&& forall|i: int, j: int|
        0 <= i < j < g.len() ==> (#[trigger] g[i]).name != (#[trigger] g[j]).name
}

/// The generation after a conversation's directory has been handed in. An
/// empty directory leaves no trace; one whose name is already there takes the
/// place of the earlier one; any other goes to the end.
pub open spec fn with_folder(g: Seq<FolderView>, f: FolderView) -> Seq<FolderView> {
    if f.files.len() == 0 {
        g
    } else {
        match first_where(g, dir_named(f.name)) {
            Some(i) => g.update(i, f),
            None => g.push(f),
        }
    }
}

/// One generation of the cache: the directories of the conversations that
/// had media when it was built.
#[derive(Debug)]
pub struct FolderCache {
    folders: Vec<Folder>,
}

impl View for FolderCache {
    type V = Seq<FolderView>;

    closed spec fn view(&self) -> Seq<FolderView> {
        self.folders@.map_values(|f: Folder| f@)
    }
}

impl FolderCache {
    /// What holds of every cache: it is a generation.
    #[verifier::type_invariant]
    pub open spec fn valid(self) -> bool {
        is_generation(self@)
    }

    /// The empty generation.
    pub fn new() -> (cache: FolderCache)
        ensures
            cache@ == Seq::<FolderView>::empty(),
            is_generation(cache@),
    {
        let cache = FolderCache { folders: Vec::new() };
        cache
    }

    /// The number of directories.
    pub fn len(&self) -> (len: usize)
        ensures
            len == self@.len(),
    {
        self.folders.len()
    }

    /// The directory at position `index`, if there is one.
    pub fn folder(&self, index: usize) -> (folder: Option<&Folder>)
        ensures
            folder is Some <==> index < self@.len(),
            folder matches Some(f) ==> f@ == self@[index as int],
    {
        if index < self.folders.len() {
            Some(&self.folders[index])
        } else {
            None
        }
    }

    /// The position of the directory called `name`.
    pub fn position_by_name(&self, name: &str) -> (position: Option<usize>)
        ensures
            match position {
                Some(i) => i < self@.len() && first_where(self@, dir_named(name@)) == Some(
                    i as int,
                ),
                None => first_where(self@, dir_named(name@)) is None,
            },
    {
        let wanted = name.to_owned();
        let mut i: usize = 0;
        while i < self.folders.len()
            invariant
                i <= self.folders.len(),
                wanted@ == name@,
                first_where(self@, dir_named(name@)) == first_from(
                    self@,
                    dir_named(name@),
                    i as int,
                ),
            decreases self.folders.len() - i,
        {
            if self.folders[i].name == wanted {
                return Some(i);
            }
            i += 1;
        }
        None
    }

    /// The position of the first directory with the identifier `ino`.
    pub fn position_by_ino(&self, ino: u64) -> (position: Option<usize>)
        ensures
            match position {
                Some(i) => i < self@.len() && first_where(self@, dir_with_ino(ino)) == Some(
                    i as int,
                ),
                None => first_where(self@, dir_with_ino(ino)) is None,
            },
    {
        let mut i: usize = 0;
        while i < self.folders.len()
            invariant
                i <= self.folders.len(),
                first_where(self@, dir_with_ino(ino)) == first_from(
                    self@,
                    dir_with_ino(ino),
                    i as int,
                ),
            decreases self.folders.len() - i,
        {
            if self.folders[i].ino() == ino {
                return Some(i);
            }
            i += 1;
        }
        None
    }

    /// The first file with the identifier `ino` in the first directory that
    /// holds one.
    pub fn find_file(&self, ino: u64) -> (file: Option<&CachedFile>)
        ensures
            match file {
                Some(f) => file_with(self@, ino) == Some(f@),
                None => file_with(self@, ino) is None,
            },
    {
        let mut i: usize = 0;
        while i < self.folders.len()
            invariant
                i <= self.folders.len(),
                first_where(self@, dir_holding(ino)) == first_from(
                    self@,
                    dir_holding(ino),
                    i as int,
                ),
            decreases self.folders.len() - i,
        {
            let found = self.folders[i].find_by_ino(ino);
            if found.is_some() {
                return found;
            }
            i += 1;
        }
        None
    }

    /// Hands in the directory of one conversation. An empty directory is
    /// dropped; one whose name the generation already holds replaces the
    /// earlier one.
    pub fn insert(&mut self, folder: Folder)
        ensures
            final(self)@ == with_folder(old(self)@, folder@),
            is_generation(final(self)@),
    {
        proof {
            use_type_invariant(&*self);
            use_type_invariant(&folder);
        }
        if folder.files.len() == 0 {
            return ;
        }
        let position = self.position_by_name(folder.name.as_str());
        let ghost before = self@;
        proof {
            lemma_first_from(before, dir_named(folder@.name), 0);
        }
        let mut folders: Vec<Folder> = Vec::new();
        core::mem::swap(&mut folders, &mut self.folders);
        match position {
            Some(i) => {
                folders.set(i, folder);
                proof {
                    let after = folders@.map_values(|f: Folder| f@);
                    assert(after =~= before.update(i as int, folder@));
                }
            },
            None => {
                folders.push(folder);
                proof {
                    let after = folders@.map_values(|f: Folder| f@);
                    assert(after =~= before.push(folder@));
                }
            },
        }
        self.folders = folders;
    }
}

/// Every file of a generation has an identifier of its own within its
/// directory, and none has the root's.
pub proof fn lemma_file_identifiers(g: Seq<FolderView>, i: int, j: int, k: int)
    requires
        is_generation(g),
        0 <= i < g.len(),
        0 <= j < g[i].files.len(),
        0 <= k < g[i].files.len(),
    ensures
        g[i].ino() != ROOT_INO,
        g[i].files[j].ino != ROOT_INO,
        j != k ==> g[i].files[j].ino != g[i].files[k].ino,
{
}

} // verus!
