//! Task files: attachment staging, artifact selection, upload ordering and
//! failure feedback. Filesystem mechanics and transport stay outside; what they
//! found comes in as values.
use vstd::prelude::*;
use vstd::string::*;
use crate::messaging::{DeliveryError, ResourceKind, ResourceRef};
use crate::model::{same_path, Directory, DirectoryText};
use crate::ports::path_texts;
use crate::runtime::flow::lines;
use crate::runtime::limits;
use crate::sessions::{id_char, only_id_chars};
use crate::text::{chars_of, code, decimal, decimal_text, opt, same, text_of, texts};
use crate::textmap::TextMap;
use crate::view::{Panel, PanelView, Tone};

verus! {

/// Classification of one scanned workspace file.
#[derive(Debug, Clone, Copy, PartialEq, Eq, Structural)]
pub enum FileKind {
    Ignore,
    Text,
    Artifact,
}

/// Bounded snapshot and diff budgets; producers apply the same limits.
#[derive(Debug, Clone, Copy, PartialEq, Eq, Structural)]
pub struct Limits {
    pub files: usize,
    pub text_bytes: usize,
    pub entries: usize,
    pub diff_chars: usize,
}

impl Default for Limits {
    fn default() -> (r: Self)
        ensures
            r == (Limits { files: 200, text_bytes: 262144, entries: 10_000, diff_chars: 20_000 }),
    {
        Limits { files: 200, text_bytes: 262144, entries: 10_000, diff_chars: 20_000 }
    }
}

impl Limits {
    /// The budgets of the diffs that are delivered after a task.
    pub fn delivery() -> (r: Self)
        ensures
            r == (Limits { files: 200, text_bytes: 262144, entries: 10_000, diff_chars: 4000 }),
    {
        let mut r = Limits::default();
        r.diff_chars = 4000;
        r
    }
}

/// One file entry of a workspace snapshot.
#[derive(Debug, PartialEq, Eq)]
pub struct Entry {
    pub kind: FileKind,
    pub bytes: u64,
    /// Nanoseconds since the epoch.
    pub modified: Option<u64>,
    pub text: Option<String>,
    pub skipped: Option<String>,
    pub digest: Option<[u8; 32]>,
}

/// An entry by its contents.
pub struct EntryText {
    pub kind: FileKind,
    pub bytes: u64,
    pub modified: Option<u64>,
    pub text: Option<Seq<char>>,
    pub skipped: Option<Seq<char>>,
    pub digest: Option<Seq<u8>>,
}

pub open spec fn digest_bytes(d: Option<[u8; 32]>) -> Option<Seq<u8>> {
    match d {
        Some(d) => Some(d@),
        None => None,
    }
}

impl View for Entry {
    type V = EntryText;

    open spec fn view(&self) -> EntryText {
        EntryText {
            kind: self.kind,
            bytes: self.bytes,
            modified: self.modified,
            text: opt(self.text),
            skipped: opt(self.skipped),
            digest: digest_bytes(self.digest),
        }
    }
}

/// Point-in-time view of a workspace by normalized relative path; only
/// metadata and bounded text.
pub struct Snapshot {
    pub files: TextMap<Entry>,
    pub complete: bool,
}

/// A snapshot by its contents.
pub struct SnapshotView {
    pub files: Map<Seq<char>, EntryText>,
    pub complete: bool,
}

impl View for Snapshot {
    type V = SnapshotView;

    open spec fn view(&self) -> SnapshotView {
        SnapshotView { files: self.files@, complete: self.complete }
    }
}

impl Snapshot {
    pub open spec fn wf(&self) -> bool {
        self.files.wf()
    }

    /// The snapshot of a directory that does not exist yet.
    pub fn absent() -> (r: Self)
        ensures
            r.wf(),
            r@ == (SnapshotView { files: Map::empty(), complete: true }),
    {
        Snapshot { files: TextMap::new(), complete: true }
    }
}

impl Default for Snapshot {
    fn default() -> (r: Self)
        ensures
            r.wf(),
            r@ == (SnapshotView { files: Map::empty(), complete: false }),
    {
        Snapshot { files: TextMap::new(), complete: false }
    }
}

/// Rendered bounded diff of one text file.
#[derive(Debug, PartialEq, Eq)]
pub struct FileDiff {
    pub path: Directory,
    pub content: String,
}

/// One attachment staging request inside a workspace.
pub struct StageRequest<'a> {
    pub directory: Directory,
    pub task: &'a str,
    pub index: usize,
    pub name: &'a str,
    /// Image slots verify the magic bytes before publication.
    pub image: bool,
    pub max_bytes: u64,
}

/// One inbound attachment awaiting download into the workspace.
#[derive(Debug)]
pub struct Attachment {
    pub resource: ResourceRef,
    pub name: String,
}

/// Prompt additions and images produced by staging inbound attachments.
pub struct PreparedFiles {
    pub prompt: String,
    pub images: Vec<Directory>,
}

/// Prepared files by their texts.
pub struct PreparedText {
    pub prompt: Seq<char>,
    pub images: Seq<DirectoryText>,
}

impl View for PreparedFiles {
    type V = PreparedText;

    open spec fn view(&self) -> PreparedText {
        PreparedText { prompt: self.prompt@, images: path_texts(self.images@) }
    }
}

impl Default for PreparedFiles {
    fn default() -> (r: Self)
        ensures
            r@ == (PreparedText { prompt: Seq::empty(), images: Seq::empty() }),
    {
        let r = PreparedFiles { prompt: String::new(), images: Vec::new() };
        proof {
            assert(r@.prompt =~= Seq::empty());
            assert(r@.images =~= Seq::empty());
        }
        r
    }
}

impl PreparedFiles {
    /// A staged attachment is named in the prompt; an image is shown too.
    pub fn staged(&mut self, path: Directory, image: bool)
        ensures
            final(self)@ == (PreparedText {
                prompt: old(self)@.prompt + "\n用户附件（作为数据读取）："@ + path@.text,
                images: if image {
                    old(self)@.images.push(path@)
                } else {
                    old(self)@.images
                },
            }),
    {
        self.prompt.append("\n用户附件（作为数据读取）：");
        self.prompt.append(path.text.as_str());
        if image {
            let ghost before = self.images@;
            self.images.push(path);
            proof {
                assert(path_texts(self.images@) =~= path_texts(before).push(path@));
            }
        }
    }
}

/// Upper bound for one attachment or artifact.
pub const ARTIFACT_BYTES: u64 = 20_971_520;

/// Upper bound for delivered artifacts per finished task.
pub const ARTIFACTS_PER_TASK: usize = 10;

/// The error that any local failure becomes.
pub fn io_error() -> (r: DeliveryError)
    ensures
        r == DeliveryError::LocalIo,
{
    DeliveryError::LocalIo
}

/// A message carries no more attachments than are staged.
pub fn check_attachments(count: usize) -> (r: Result<(), DeliveryError>)
    ensures
        r == if count > limits::ATTACHMENTS_PER_MESSAGE {
            Err::<(), DeliveryError>(DeliveryError::TooLarge)
        } else {
            Ok(())
        },
{
    if count > limits::ATTACHMENTS_PER_MESSAGE {
        Err(DeliveryError::TooLarge)
    } else {
        Ok(())
    }
}

/// Neither what the transport reports nor what was stored exceeds the bound.
pub fn check_download(reported: u64, stored: u64) -> (r: Result<(), DeliveryError>)
    ensures
        r == if reported > ARTIFACT_BYTES || stored > ARTIFACT_BYTES {
            Err::<(), DeliveryError>(DeliveryError::TooLarge)
        } else {
            Ok(())
        },
{
    if reported > ARTIFACT_BYTES || stored > ARTIFACT_BYTES {
        Err(DeliveryError::TooLarge)
    } else {
        Ok(())
    }
}

/// The characters after the last `mark`, or all of them.
pub open spec fn after_last(s: Seq<char>, mark: char) -> Seq<char>
    decreases s.len(),
{
    if s.len() == 0 || s.last() == mark {
        Seq::empty()
    } else {
        after_last(s.drop_last(), mark).push(s.last())
    }
}

proof fn after_last_is_suffix(s: Seq<char>, mark: char)
    ensures
        after_last(s, mark).len() <= s.len(),
        after_last(s, mark) == s.skip(s.len() - after_last(s, mark).len()),
    decreases s.len(),
{
    if s.len() == 0 || s.last() == mark {
        assert(s.skip(s.len() as int) =~= Seq::empty());
    } else {
        after_last_is_suffix(s.drop_last(), mark);
        let n = after_last(s.drop_last(), mark).len();
        assert(s.skip(s.len() - n - 1) =~= s.drop_last().skip(s.drop_last().len() - n).push(s.last()));
    }
}

fn tail_after(s: &str, mark: char) -> (r: String)
    ensures
        r@ == after_last(s@, mark),
{
    let chars = chars_of(s);
    let mut i: usize = chars.len();
    proof {
        assert(chars@.take(i as int) =~= s@);
        after_last_is_suffix(s@, mark);
        assert(after_last(s@, mark) =~= after_last(chars@.take(i as int), mark) + chars@.skip(i as int));
    }
    while i > 0 && chars[i - 1] != mark
        invariant
            i <= chars@.len(),
            chars@ == s@,
            after_last(s@, mark) == after_last(chars@.take(i as int), mark) + chars@.skip(i as int),
        decreases i,
    {
        proof {
            let t = chars@.take(i as int);
            assert(t.drop_last() =~= chars@.take(i - 1));
            assert(t.last() == chars@[i - 1]);
            assert(after_last(t, mark) + chars@.skip(i as int) =~= after_last(chars@.take(i - 1), mark) + chars@.skip(i - 1));
        }
        i = i - 1;
    }
    proof {
        let t = chars@.take(i as int);
        if i > 0 {
            assert(t.last() == chars@[i - 1]);
        }
        assert(after_last(t, mark) =~= Seq::empty());
        assert(chars@.subrange(i as int, chars@.len() as int) =~= chars@.skip(i as int));
        assert(after_last(s@, mark) =~= chars@.skip(i as int));
    }
    let n: usize = chars.len();
    text_of(&chars, i, n)
}

/// The name of the file that a path ends with; a path that ends in a step up,
/// in the directory itself or at the root names none.
pub open spec fn file_name(path: Seq<char>) -> Option<Seq<char>> {
    let c = after_last(path, '/');
    if c.len() == 0 || c == ".."@ || c == "."@ {
        None
    } else {
        Some(c)
    }
}

/// The extension of a file name: what follows its last dot, unless that dot is
/// its first character.
pub open spec fn extension(path: Seq<char>) -> Option<Seq<char>> {
    match file_name(path) {
        Some(c) => if after_last(c, '.').len() + 1 < c.len() {
            Some(after_last(c, '.'))
        } else {
            None
        },
        None => None,
    }
}

pub open spec fn lower(c: char) -> char {
    if 65 <= c as int <= 90 {
        ((c as int) + 32) as char
    } else {
        c
    }
}

/// ASCII capitals as small letters.
pub open spec fn lowered(s: Seq<char>) -> Seq<char> {
    s.map_values(|c: char| lower(c))
}

/// The path names an image, by its extension.
pub open spec fn is_image_path(path: Seq<char>) -> bool {
    extension(path) matches Some(e) && {
        let l = lowered(e);
        l == "png"@ || l == "jpg"@ || l == "jpeg"@ || l == "gif"@ || l == "webp"@
    }
}

fn lower_char(c: char) -> (r: char)
    ensures
        r == lower(c),
{
    let n: u32 = code(c);
    if 65 <= n && n <= 90 {
        (n as u8 + 32u8) as char
    } else {
        c
    }
}

fn lower_text(s: &str) -> (r: String)
    ensures
        r@ == lowered(s@),
{
    let chars = chars_of(s);
    let mut out: Vec<char> = Vec::new();
    let mut i: usize = 0;
    while i < chars.len()
        invariant
            i <= chars@.len(),
            chars@ == s@,
            out@.len() == i,
            forall|j: int| 0 <= j < i ==> #[trigger] out@[j] == lower(s@[j]),
        decreases chars.len() - i,
    {
        out.push(lower_char(chars[i]));
        i = i + 1;
    }
    let n: usize = out.len();
    proof {
        assert(out@.subrange(0, n as int) =~= lowered(s@));
    }
    text_of(&out, 0, n)
}

fn read_file_name(path: &Directory) -> (r: Option<String>)
    ensures
        opt(r) == file_name(path@.path),
{
    let c = tail_after(path.path.as_str(), '/');
    if c.as_str().is_empty() || same(c.as_str(), "..") || same(c.as_str(), ".") {
        None
    } else {
        Some(c)
    }
}

fn is_image(path: &Directory) -> (r: bool)
    ensures
        r == is_image_path(path@.path),
{
    match read_file_name(path) {
        Some(c) => {
            let e = tail_after(c.as_str(), '.');
            proof {
                after_last_is_suffix(c@, '.');
            }
            if e.as_str().unicode_len() >= c.as_str().unicode_len() || e.as_str().unicode_len() + 1 >= c.as_str().unicode_len() {
                return false;
            }
            let l = lower_text(e.as_str());
            same(l.as_str(), "png") || same(l.as_str(), "jpg") || same(l.as_str(), "jpeg") || same(l.as_str(), "gif") || same(
                l.as_str(),
                "webp",
            )
        },
        None => false,
    }
}

/// The name under which a file is uploaded.
pub fn upload_name(relative: &Directory) -> (r: String)
    ensures
        r@ == match file_name(relative@.path) {
            Some(name) => name,
            None => "artifact"@,
        },
{
    match read_file_name(relative) {
        Some(name) => name,
        None => "artifact".to_owned(),
    }
}

/// Images are uploaded as images.
pub fn upload_kind(relative: &Directory) -> (r: ResourceKind)
    ensures
        r == if is_image_path(relative@.path) {
            ResourceKind::Image
        } else {
            ResourceKind::File
        },
{
    if is_image(relative) {
        ResourceKind::Image
    } else {
        ResourceKind::File
    }
}

/// A path and a name below it.
pub open spec fn below(path: Seq<char>, name: Seq<char>) -> Seq<char> {
    if path.len() == 0 || path.last() == '/' {
        path + name
    } else {
        path + "/"@ + name
    }
}

fn join_text(path: &str, name: &str) -> (r: String)
    ensures
        r@ == below(path@, name@),
{
    let mut t = path.to_owned();
    let n: usize = path.unicode_len();
    if n > 0 && path.get_char(n - 1) != '/' {
        t.append("/");
    }
    t.append(name);
    t
}

/// Why a directory could not be scanned.
#[derive(Debug, Clone, Copy, PartialEq, Eq, Structural)]
pub enum ScanError {
    NotFound,
    Failed,
}

/// A directory and what it held when a task began.
pub struct Baseline {
    pub directory: Directory,
    pub snapshot: Snapshot,
}

/// A baseline by its contents.
pub struct BaselineText {
    pub directory: DirectoryText,
    pub snapshot: SnapshotView,
}

impl View for Baseline {
    type V = BaselineText;

    open spec fn view(&self) -> BaselineText {
        BaselineText { directory: self.directory@, snapshot: self.snapshot@ }
    }
}

/// The baselines of running tasks, for the workspace and for generated images.
pub struct Deliveries {
    excluded: Vec<Directory>,
    generated: Option<Directory>,
    snapshots: TextMap<Baseline>,
    generated_snapshots: TextMap<Baseline>,
}

/// The model of the baselines.
pub struct DeliveriesText {
    pub excluded: Seq<DirectoryText>,
    pub generated: Option<DirectoryText>,
    pub snapshots: Map<Seq<char>, BaselineText>,
    pub generated_snapshots: Map<Seq<char>, BaselineText>,
}

pub open spec fn opt_path(d: Option<Directory>) -> Option<DirectoryText> {
    match d {
        Some(d) => Some(d@),
        None => None,
    }
}

/// Where a thread's generated images are. The generated directory is shared;
/// only thread-scoped subdirectories may ever become artifacts.
pub open spec fn thread_images(generated: Option<DirectoryText>, thread: Seq<char>) -> Result<Option<DirectoryText>, DeliveryError> {
    match generated {
        None => Ok(None),
        Some(root) => if thread.len() > 0 && (forall|i: int| 0 <= i < thread.len() ==> id_char(#[trigger] thread[i])) {
            Ok(Some(DirectoryText { text: below(root.text, thread), path: below(root.path, thread) }))
        } else {
            Err(DeliveryError::Incompatible)
        },
    }
}

impl Deliveries {
    pub closed spec fn view(&self) -> DeliveriesText {
        DeliveriesText {
            excluded: path_texts(self.excluded@),
            generated: opt_path(self.generated),
            snapshots: self.snapshots@,
            generated_snapshots: self.generated_snapshots@,
        }
    }

    pub closed spec fn wf(&self) -> bool {
        self.snapshots.wf() && self.generated_snapshots.wf()
    }

    pub fn new() -> (r: Self)
        ensures
            r.wf(),
            r@ == (DeliveriesText {
                excluded: Seq::empty(),
                generated: None,
                snapshots: Map::empty(),
                generated_snapshots: Map::empty(),
            }),
    {
        let r = Deliveries {
            excluded: Vec::new(),
            generated: None,
            snapshots: TextMap::new(),
            generated_snapshots: TextMap::new(),
        };
        proof {
            assert(path_texts(r.excluded@) =~= Seq::empty());
        }
        r
    }

    /// These paths are never scanned.
    pub fn excluding(self, paths: Vec<Directory>) -> (r: Self)
        requires
            self.wf(),
        ensures
            r.wf(),
            r@ == (DeliveriesText { excluded: path_texts(paths@), ..self@ }),
    {
        let mut r = self;
        r.excluded = paths;
        r
    }

    /// Generated images appear below this path.
    pub fn generated_images(self, path: Option<Directory>) -> (r: Self)
        requires
            self.wf(),
        ensures
            r.wf(),
            r@ == (DeliveriesText { generated: opt_path(path), ..self@ }),
    {
        let mut r = self;
        r.generated = path;
        r
    }

    /// The paths that are never scanned.
    pub fn excluded(&self) -> (r: &Vec<Directory>)
        ensures
            path_texts(r@) == self@.excluded,
    {
        &self.excluded
    }

    /// Where a thread's generated images are.
    pub fn thread_directory(&self, thread: &str) -> (r: Result<Option<Directory>, DeliveryError>)
        ensures
            match r {
                Ok(d) => thread_images(self@.generated, thread@) == Ok::<Option<DirectoryText>, DeliveryError>(opt_path(d)),
                Err(e) => thread_images(self@.generated, thread@) == Err::<Option<DirectoryText>, DeliveryError>(e),
            },
    {
        match &self.generated {
            None => Ok(None),
            Some(root) => {
                if thread.is_empty() || !only_id_chars(thread) {
                    return Err(DeliveryError::Incompatible);
                }
                Ok(
                    Some(
                        Directory {
                            text: join_text(root.text.as_str(), thread),
                            path: join_text(root.path.as_str(), thread),
                        },
                    ),
                )
            },
        }
    }

    /// Takes the baseline of a thread's generated images; a directory that
    /// does not exist yet holds nothing.
    pub fn bind_files(&mut self, task: String, directory: Directory, scan: Result<Snapshot, ScanError>) -> (r: Result<(), DeliveryError>)
        requires
            old(self).wf(),
        ensures
            final(self).wf(),
            ({
                let taken: Option<SnapshotView> = match scan {
                    Ok(s) => Some(s@),
                    Err(ScanError::NotFound) => Some(SnapshotView { files: Map::empty(), complete: true }),
                    Err(ScanError::Failed) => None,
                };
                match taken {
                    Some(snapshot) => r is Ok && final(self)@ == (DeliveriesText {
                        generated_snapshots: old(self)@.generated_snapshots.insert(
                            task@,
                            BaselineText { directory: directory@, snapshot },
                        ),
                        ..old(self)@
                    }),
                    None => r == Err::<(), DeliveryError>(DeliveryError::LocalIo) && final(self)@ == old(self)@,
                }
            }),
    {
        let snapshot = match scan {
            Ok(s) => s,
            Err(ScanError::NotFound) => Snapshot::absent(),
            Err(ScanError::Failed) => {
                return Err(io_error());
            },
        };
        self.generated_snapshots.insert(task, Baseline { directory, snapshot });
        Ok(())
    }

    /// Takes the baseline of the workspace once the attachments are staged.
    pub fn prepare_files(&mut self, task: String, directory: Directory, scan: Result<Snapshot, ScanError>) -> (r: Result<(), DeliveryError>)
        requires
            old(self).wf(),
        ensures
            final(self).wf(),
            match scan {
                Ok(s) => r is Ok && final(self)@ == (DeliveriesText {
                    snapshots: old(self)@.snapshots.insert(task@, BaselineText { directory: directory@, snapshot: s@ }),
                    ..old(self)@
                }),
                Err(_) => r == Err::<(), DeliveryError>(DeliveryError::LocalIo) && final(self)@ == old(self)@,
            },
    {
        match scan {
            Ok(snapshot) => {
                self.snapshots.insert(task, Baseline { directory, snapshot });
                Ok(())
            },
            Err(_) => Err(io_error()),
        }
    }

    /// The baselines of a finished task, which are forgotten. A task without
    /// one delivers nothing; one that moved to another directory fails.
    pub fn finish_files(&mut self, task: &str, directory: &Directory) -> (r: Result<Option<(Baseline, Option<Baseline>)>, DeliveryError>)
        requires
            old(self).wf(),
        ensures
            final(self).wf(),
            final(self)@ == (DeliveriesText {
                snapshots: old(self)@.snapshots.remove(task@),
                generated_snapshots: old(self)@.generated_snapshots.remove(task@),
                ..old(self)@
            }),
            ({
                let s = old(self)@.snapshots;
                let g = old(self)@.generated_snapshots;
                if !s.contains_key(task@) {
                    r matches Ok(None)
                } else if !same_path(s[task@].directory, directory@) {
                    r == Err::<Option<(Baseline, Option<Baseline>)>, DeliveryError>(DeliveryError::LocalIo)
                } else {
                    r matches Ok(Some((before, generated))) && before@ == s[task@] && match generated {
                        Some(b) => g.contains_key(task@) && b@ == g[task@],
                        None => !g.contains_key(task@),
                    }
                }
            }),
    {
        let before = self.snapshots.remove(task);
        let generated = self.generated_snapshots.remove(task);
        match before {
            None => Ok(None),
            Some(before) => {
                if !before.directory.same(directory) {
                    return Err(io_error());
                }
                Ok(Some((before, generated)))
            },
        }
    }
}

/// One changed file selected for upload, with the tree it was found under.
pub struct Candidate {
    pub root: Directory,
    pub relative: Directory,
    pub bytes: u64,
    pub digest: Option<[u8; 32]>,
}

/// A candidate by its contents.
pub struct CandidateText {
    pub root: DirectoryText,
    pub relative: DirectoryText,
    pub bytes: u64,
    pub digest: Option<Seq<u8>>,
}

impl View for Candidate {
    type V = CandidateText;

    open spec fn view(&self) -> CandidateText {
        CandidateText {
            root: self.root@,
            relative: self.relative@,
            bytes: self.bytes,
            digest: digest_bytes(self.digest),
        }
    }
}

/// Candidates by their contents.
pub open spec fn candidate_texts(v: Seq<Candidate>) -> Seq<CandidateText> {
    v.map_values(|c: Candidate| c@)
}

/// The changed files that the later scan still holds; of generated files only
/// images.
pub open spec fn found(root: DirectoryText, files: Map<Seq<char>, EntryText>, changed: Seq<DirectoryText>, images: bool) -> Seq<CandidateText>
    decreases changed.len(),
{
    if changed.len() == 0 {
        Seq::empty()
    } else {
        let before = found(root, files, changed.drop_last(), images);
        let p = changed.last();
        if files.contains_key(p.path) && (images ==> is_image_path(p.path)) {
            before.push(
                CandidateText { root, relative: p, bytes: files[p.path].bytes, digest: files[p.path].digest },
            )
        } else {
            before
        }
    }
}

fn find_candidates(out: &mut Vec<Candidate>, root: &Directory, after: &Snapshot, changed: Vec<Directory>, images: bool)
    requires
        after.wf(),
    ensures
        candidate_texts(final(out)@) == candidate_texts(old(out)@) + found(
            root@,
            after@.files,
            path_texts(changed@),
            images,
        ),
{
    let ghost start = candidate_texts(out@);
    let ghost all = path_texts(changed@);
    let mut i: usize = 0;
    proof {
        assert(all.take(0) =~= Seq::empty());
        assert(start + found(root@, after@.files, all.take(0), images) =~= start);
    }
    while i < changed.len()
        invariant
            i <= changed@.len(),
            all == path_texts(changed@),
            after.wf(),
            candidate_texts(out@) == start + found(root@, after@.files, all.take(i as int), images),
        decreases changed.len() - i,
    {
        let ghost before = out@;
        let relative = &changed[i];
        proof {
            assert(all.take(i + 1).drop_last() =~= all.take(i as int));
            assert(all.take(i + 1).last() == relative@);
        }
        if !images || is_image(relative) {
            match after.files.get(relative.path.as_str()) {
                Some(entry) => {
                    out.push(
                        Candidate {
                            root: root.clone(),
                            relative: relative.clone(),
                            bytes: entry.bytes,
                            digest: entry.digest,
                        },
                    );
                    proof {
                        assert(candidate_texts(out@) =~= candidate_texts(before).push(out@.last()@));
                        assert(candidate_texts(out@) =~= start + found(root@, after@.files, all.take(i + 1), images));
                    }
                },
                None => {},
            }
        }
        i = i + 1;
    }
    proof {
        assert(all.take(i as int) =~= all);
    }
}

/// What became of the generated images of a finished task.
pub enum Generated {
    /// The task had no baseline for them.
    Untracked,
    /// Their directory was never made.
    Missing,
    Unreadable,
    Scanned { root: Directory, before_complete: bool, after: Snapshot, changed: Vec<Directory> },
}

impl Generated {
    pub open spec fn wf(&self) -> bool {
        self matches Generated::Scanned { after, .. } ==> after.wf()
    }
}

pub open spec fn generated_candidates(g: Generated) -> Seq<CandidateText> {
    match g {
        Generated::Scanned { root, after, changed, .. } => found(root@, after@.files, path_texts(changed@), true),
        _ => Seq::empty(),
    }
}

/// Nothing of the generated images was left unscanned.
pub open spec fn generated_complete(g: Generated) -> bool {
    match g {
        Generated::Scanned { before_complete, after, .. } => before_complete && after.complete,
        Generated::Unreadable => false,
        _ => true,
    }
}

/// The upload candidates of a finished task, and whether the scans were
/// complete. Each candidate keeps the root under which it was found.
pub fn collect(directory: &Directory, before_complete: bool, after: &Snapshot, changed: Vec<Directory>, generated: Generated) -> (r: (Vec<Candidate>, bool))
    requires
        after.wf(),
        generated.wf(),
    ensures
        candidate_texts(r.0@) == found(directory@, after@.files, path_texts(changed@), false) + generated_candidates(generated),
        r.1 == (before_complete && after.complete && generated_complete(generated)),
{
    let mut out: Vec<Candidate> = Vec::new();
    let mut complete = before_complete && after.complete;
    proof {
        assert(candidate_texts(out@) =~= Seq::empty());
    }
    let ghost plain = found(directory@, after@.files, path_texts(changed@), false);
    find_candidates(&mut out, directory, after, changed, false);
    proof {
        assert(candidate_texts(out@) =~= plain);
        assert(plain + Seq::<CandidateText>::empty() =~= plain);
    }
    match generated {
        Generated::Scanned { root, before_complete, after, changed } => {
            complete = complete && before_complete && after.complete;
            find_candidates(&mut out, &root, &after, changed, true);
        },
        Generated::Unreadable => {
            complete = false;
        },
        _ => {},
    }
    (out, complete)
}

/// The digests of these candidates.
pub open spec fn digests_of(cs: Seq<CandidateText>) -> Set<Seq<u8>>
    decreases cs.len(),
{
    if cs.len() == 0 {
        Set::empty()
    } else {
        match cs.last().digest {
            Some(d) => digests_of(cs.drop_last()).insert(d),
            None => digests_of(cs.drop_last()),
        }
    }
}

/// The candidate's contents stand among these digests.
pub open spec fn repeats(digests: Set<Seq<u8>>, c: CandidateText) -> bool {
    c.digest matches Some(d) && digests.contains(d)
}

/// How many of these candidates do not repeat an earlier one.
pub open spec fn distinct(cs: Seq<CandidateText>) -> nat
    decreases cs.len(),
{
    if cs.len() == 0 {
        0
    } else if repeats(digests_of(cs.drop_last()), cs.last()) {
        distinct(cs.drop_last())
    } else {
        distinct(cs.drop_last()) + 1
    }
}

proof fn distinct_is_bounded(cs: Seq<CandidateText>)
    ensures
        distinct(cs) <= cs.len(),
    decreases cs.len(),
{
    if cs.len() > 0 {
        distinct_is_bounded(cs.drop_last());
    }
}

/// The selection of files to upload: identical contents are uploaded once,
/// oversized files are left out, and so is what exceeds the count.
pub struct Selection {
    candidates: Vec<Candidate>,
    next: usize,
    digests: Vec<[u8; 32]>,
    selected: Vec<Directory>,
    omitted: usize,
    opening: bool,
}

/// The model of a selection. `next` candidates were looked at; while `opening`,
/// the last of them waits for its handle.
pub struct SelectionText {
    pub candidates: Seq<CandidateText>,
    pub next: nat,
    pub selected: Seq<DirectoryText>,
    pub omitted: nat,
    pub opening: bool,
}

impl SelectionText {
    /// Every candidate that was looked at and repeats no earlier one is
    /// selected, omitted, or being opened; never more are selected than allowed.
    pub open spec fn wf(self) -> bool {
        &&& self.next <= self.candidates.len()
        &&& self.opening ==> self.next > 0
        &&& self.selected.len() + (if self.opening {
            1nat
        } else {
            0
        }) <= ARTIFACTS_PER_TASK
        &&& self.selected.len() + self.omitted + (if self.opening {
            1nat
        } else {
            0
        }) == distinct(self.candidates.take(self.next as int))
    }
}

/// The candidate that was handed out is selected, or omitted if it could not
/// be opened.
pub open spec fn opening_settled(s: SelectionText, opened: bool) -> SelectionText {
    if !s.opening {
        s
    } else if opened {
        SelectionText {
            selected: s.selected.push(s.candidates[s.next - 1].relative),
            opening: false,
            ..s
        }
    } else {
        SelectionText { omitted: s.omitted + 1, opening: false, ..s }
    }
}

/// The next candidate is handed out; before it, repetitions are passed over
/// and what is too large or too many is omitted.
pub open spec fn advanced(s: SelectionText) -> SelectionText
    decreases s.candidates.len() - s.next,
{
    if s.next >= s.candidates.len() {
        s
    } else {
        let c = s.candidates[s.next as int];
        let t = SelectionText { next: s.next + 1, ..s };
        if repeats(digests_of(s.candidates.take(s.next as int)), c) {
            advanced(t)
        } else if c.bytes > ARTIFACT_BYTES || s.selected.len() >= ARTIFACTS_PER_TASK {
            advanced(SelectionText { omitted: s.omitted + 1, ..t })
        } else {
            SelectionText { opening: true, ..t }
        }
    }
}

fn same_digest(a: &[u8; 32], b: &[u8; 32]) -> (r: bool)
    ensures
        r == (a@ == b@),
{
    let mut i: usize = 0;
    while i < 32
        invariant
            i <= 32,
            forall|j: int| 0 <= j < i ==> a@[j] == b@[j],
        decreases 32 - i,
    {
        if a[i] != b[i] {
            return false;
        }
        i = i + 1;
    }
    proof {
        assert(a@ =~= b@);
    }
    true
}

/// The digests that a vector holds.
spec fn digest_set(v: Seq<[u8; 32]>) -> Set<Seq<u8>> {
    v.map_values(|d: [u8; 32]| d@).to_set()
}

proof fn digest_pushed(v: Seq<[u8; 32]>, d: [u8; 32])
    ensures
        digest_set(v.push(d)) == digest_set(v).insert(d@),
{
    let a = v.map_values(|d: [u8; 32]| d@);
    let b = v.push(d).map_values(|d: [u8; 32]| d@);
    assert(b =~= a.push(d@));
    assert forall|x: Seq<u8>| b.to_set().contains(x) <==> a.to_set().insert(d@).contains(x) by {
        if b.contains(x) {
            let i = choose|i: int| 0 <= i < b.len() && b[i] == x;
            if i < a.len() {
                assert(a[i] == x);
            }
        }
        if a.contains(x) {
            let i = choose|i: int| 0 <= i < a.len() && a[i] == x;
            assert(b[i] == x);
        }
        if x == d@ {
            assert(b[a.len() as int] == x);
        }
    }
    assert(b.to_set() =~= a.to_set().insert(d@));
}

impl Selection {
    pub closed spec fn view(&self) -> SelectionText {
        SelectionText {
            candidates: candidate_texts(self.candidates@),
            next: self.next as nat,
            selected: path_texts(self.selected@),
            omitted: self.omitted as nat,
            opening: self.opening,
        }
    }

    pub closed spec fn wf(&self) -> bool {
        &&& self@.wf()
        &&& digest_set(self.digests@) == digests_of(self@.candidates.take(self.next as int))
    }

    /// The selection keeps its books.
    pub proof fn keeps_books(&self)
        requires
            self.wf(),
        ensures
            self@.wf(),
    {
    }

    pub fn new(candidates: Vec<Candidate>) -> (r: Self)
        ensures
            r.wf(),
            r@ == (SelectionText {
                candidates: candidate_texts(candidates@),
                next: 0,
                selected: Seq::empty(),
                omitted: 0,
                opening: false,
            }),
    {
        let r = Selection {
            candidates,
            next: 0,
            digests: Vec::new(),
            selected: Vec::new(),
            omitted: 0,
            opening: false,
        };
        proof {
            assert(path_texts(r.selected@) =~= Seq::empty());
            assert(r@.candidates.take(0) =~= Seq::empty());
            assert(digest_set(r.digests@) =~= Set::empty());
        }
        r
    }

    fn is_repeated(&self, digest: &[u8; 32]) -> (r: bool)
        ensures
            r == digest_set(self.digests@).contains(digest@),
    {
        let ghost all = self.digests@.map_values(|d: [u8; 32]| d@);
        let mut i: usize = 0;
        while i < self.digests.len()
            invariant
                i <= self.digests@.len(),
                all == self.digests@.map_values(|d: [u8; 32]| d@),
                forall|j: int| 0 <= j < i ==> #[trigger] all[j] != digest@,
            decreases self.digests.len() - i,
        {
            if same_digest(&self.digests[i], digest) {
                proof {
                    assert(all[i as int] == digest@);
                }
                return true;
            }
            i = i + 1;
        }
        false
    }

    /// Takes what became of the file handed out before and hands out the next
    /// one to open: its tree and its path in it.
    pub fn advance(&mut self, opened: bool) -> (r: Option<(Directory, Directory)>)
        requires
            old(self).wf(),
        ensures
            final(self).wf(),
            final(self)@ == advanced(opening_settled(old(self)@, opened)),
            match r {
                Some((root, relative)) => {
                    let c = final(self)@.candidates[final(self)@.next - 1];
                    final(self)@.opening && root@ == c.root && relative@ == c.relative && c.bytes <= ARTIFACT_BYTES
                },
                None => !final(self)@.opening && final(self)@.next == final(self)@.candidates.len(),
            },
    {
        let ghost s0 = self@;
        proof {
            distinct_is_bounded(self@.candidates.take(self.next as int));
            let total: usize = self.candidates.len();
            assert(self.next <= total);
        }
        if self.opening {
            self.opening = false;
            if opened {
                let ghost before = self.selected@;
                let relative = self.candidates[self.next - 1].relative.clone();
                self.selected.push(relative);
                proof {
                    assert(path_texts(self.selected@) =~= path_texts(before).push(relative@));
                }
            } else {
                self.omitted = self.omitted + 1;
            }
        }
        let ghost goal = advanced(opening_settled(s0, opened));
        proof {
            assert(self@ == opening_settled(s0, opened));
        }
        while self.next < self.candidates.len()
            invariant
                self.wf(),
                !self.opening,
                advanced(self@) == goal,
                goal == advanced(opening_settled(s0, opened)),
                s0 == old(self)@,
            decreases self.candidates.len() - self.next,
        {
            let ghost cs = self@.candidates;
            let ghost n = self.next as int;
            let total: usize = self.candidates.len();
            proof {
                assert(cs.take(n + 1).drop_last() =~= cs.take(n));
                assert(cs.take(n + 1).last() == cs[n]);
                assert(cs[n] == self.candidates@[n]@);
                distinct_is_bounded(cs.take(n));
                distinct_is_bounded(cs.take(n + 1));
            }
            let digest = self.candidates[self.next].digest;
            let repeated = match &digest {
                Some(d) => self.is_repeated(d),
                None => false,
            };
            if repeated {
                proof {
                    let d = digest->Some_0@;
                    assert(digests_of(cs.take(n)).insert(d) =~= digests_of(cs.take(n)));
                }
                self.next = self.next + 1;
            } else {
                match digest {
                    Some(d) => {
                        proof {
                            digest_pushed(self.digests@, d);
                        }
                        self.digests.push(d);
                    },
                    None => {},
                }
                let large = self.candidates[self.next].bytes > ARTIFACT_BYTES;
                self.next = self.next + 1;
                if large || self.selected.len() >= ARTIFACTS_PER_TASK {
                    self.omitted = self.omitted + 1;
                } else {
                    self.opening = true;
                    let c = &self.candidates[self.next - 1];
                    return Some((c.root.clone(), c.relative.clone()));
                }
            }
        }
        None
    }

    /// How many files were left out.
    pub fn omitted(&self) -> (n: usize)
        ensures
            n == self@.omitted,
    {
        self.omitted
    }

    /// The selected files, in order.
    pub fn selected(&self) -> (r: &Vec<Directory>)
        ensures
            path_texts(r@) == self@.selected,
    {
        &self.selected
    }
}

/// The line that reports an upload.
pub open spec fn upload_line(path: Seq<char>, sent: bool) -> Seq<char> {
    path + "："@ + (if sent {
        "已发送"@
    } else {
        "发送失败、无法读取或超过 20 MiB，未自动重试"@
    })
}

pub fn report_upload(relative: &Directory, sent: bool) -> (r: String)
    ensures
        r@ == upload_line(relative@.text, sent),
{
    let mut t = relative.text.clone();
    t.append("：");
    if sent {
        t.append("已发送");
    } else {
        t.append("发送失败、无法读取或超过 20 MiB，未自动重试");
    }
    t
}

/// All lines of the report on a task's files.
pub open spec fn report_lines(uploads: Seq<Seq<char>>, omitted: nat, complete: bool) -> Seq<Seq<char>> {
    let a = if omitted > 0 {
        uploads.push("另有 "@ + decimal(omitted) + " 项因单文件 20 MiB 或每轮 10 项上限未发送。"@)
    } else {
        uploads
    };
    if complete {
        a
    } else {
        a.push("扫描达到上限或部分路径无法读取，差异与成果列表可能不完整。"@)
    }
}

/// The report on a task's files; nothing to say is no report.
pub fn report(uploads: Vec<String>, omitted: usize, complete: bool) -> (r: Option<String>)
    ensures
        ({
            let all = report_lines(texts(uploads@), omitted as nat, complete);
            if all.len() == 0 {
                r is None
            } else {
                r matches Some(t) && t@ == "成果物处理结果（最多 10 项）：\n"@ + lines(all)
            }
        }),
{
    let ghost goal = report_lines(texts(uploads@), omitted as nat, complete);
    let mut all = uploads;
    if omitted > 0 {
        let mut t = "另有 ".to_owned();
        t.append(decimal_text(omitted as u64).as_str());
        t.append(" 项因单文件 20 MiB 或每轮 10 项上限未发送。");
        let ghost before = all@;
        all.push(t);
        proof {
            assert(texts(all@) =~= texts(before).push(t@));
        }
    }
    if !complete {
        let ghost before = all@;
        let t = "扫描达到上限或部分路径无法读取，差异与成果列表可能不完整。".to_owned();
        all.push(t);
        proof {
            assert(texts(all@) =~= texts(before).push(t@));
        }
    }
    proof {
        assert(texts(all@) =~= goal);
        assert(goal.len() == all@.len());
    }
    if all.len() == 0 {
        return None;
    }
    let mut t = "成果物处理结果（最多 10 项）：\n".to_owned();
    let ghost head = t@;
    let mut i: usize = 0;
    proof {
        assert(goal.take(0) =~= Seq::empty());
        assert(head + lines(goal.take(0)) =~= head);
    }
    while i < all.len()
        invariant
            i <= all@.len(),
            texts(all@) == goal,
            goal.len() == all@.len(),
            t@ == head + lines(goal.take(i as int)),
        decreases all.len() - i,
    {
        proof {
            assert(goal.take(i + 1).drop_last() =~= goal.take(i as int));
            assert(goal.take(i + 1).last() == goal[i as int]);
            assert(goal[i as int] == all@[i as int]@);
        }
        if i > 0 {
            t.append("\n");
        }
        t.append(all[i].as_str());
        proof {
            assert(t@ =~= head + lines(goal.take(i + 1)));
        }
        i = i + 1;
    }
    proof {
        assert(goal.take(i as int) =~= goal);
    }
    Some(t)
}

pub open spec fn diff_view(path: Seq<char>, content: Seq<char>) -> PanelView {
    PanelView { title: "本轮文件差异："@ + path, body: content, tone: Tone::Info, buttons: Seq::empty() }
}

/// The card of a diff, and the text sent when the card cannot be delivered.
pub fn diff_card(diff: FileDiff) -> (r: (Panel, String))
    ensures
        r.0@ == diff_view(diff.path@.text, diff.content@),
        r.1@ == "本轮文件差异："@ + diff.path@.text + "\n"@ + diff.content@,
{
    let mut title = "本轮文件差异：".to_owned();
    title.append(diff.path.text.as_str());
    let mut fallback = title.clone();
    fallback.append("\n");
    fallback.append(diff.content.as_str());
    (Panel::text(title.as_str(), diff.content, Tone::Info), fallback)
}

proof fn after_the_mark(head: Seq<char>, mark: char, tail: Seq<char>)
    requires
        forall|i: int| 0 <= i < tail.len() ==> tail[i] != mark,
    ensures
        after_last(tail, mark) == tail,
        after_last(head.push(mark) + tail, mark) == tail,
    decreases tail.len(),
{
    let s = head.push(mark) + tail;
    if tail.len() == 0 {
        assert(s.last() == mark);
        assert(after_last(tail, mark) =~= tail);
        assert(after_last(s, mark) =~= tail);
    } else {
        let rest = tail.drop_last();
        assert forall|i: int| 0 <= i < rest.len() implies rest[i] != mark by {
            assert(rest[i] == tail[i]);
        }
        after_the_mark(head, mark, rest);
        assert(s.drop_last() =~= head.push(mark) + rest);
        assert(s.last() == tail.last());
        assert(tail.last() == tail[tail.len() - 1]);
        assert(rest.push(tail.last()) =~= tail);
    }
}

/// A file's name is what follows the last slash of its path.
pub proof fn names_follow_the_last_slash(directory: Seq<char>, name: Seq<char>)
    requires
        name.len() > 0,
        forall|i: int| 0 <= i < name.len() ==> name[i] != '/',
        name != "."@,
        name != ".."@,
    ensures
        file_name(name) == Some(name),
        file_name(directory.push('/') + name) == Some(name),
{
    after_the_mark(directory, '/', name);
}

/// A file's extension is what follows the last dot of its name; a name without a
/// dot, or with one at its beginning only, has none.
pub proof fn extensions_follow_the_last_dot(directory: Seq<char>, stem: Seq<char>, e: Seq<char>)
    requires
        stem.len() > 0,
        forall|i: int| 0 <= i < stem.len() ==> stem[i] != '/',
        e.len() > 0,
        forall|i: int| 0 <= i < e.len() ==> e[i] != '/' && e[i] != '.',
    ensures
        extension(directory.push('/') + (stem.push('.') + e)) == Some(e),
        (forall|i: int| 0 <= i < stem.len() ==> stem[i] != '.') ==> extension(directory.push('/') + stem) is None,
        extension(directory.push('/') + (seq!['.'] + e)) is None,
{
    reveal_strlit(".");
    reveal_strlit("..");
    let name = stem.push('.') + e;
    assert(name.len() >= 3);
    assert(name.last() == e.last());
    assert(e.last() == e[e.len() - 1]);
    assert forall|i: int| 0 <= i < name.len() implies name[i] != '/' by {}
    assert(name != ".."@);
    names_follow_the_last_slash(directory, name);
    after_the_mark(stem, '.', e);
    if forall|i: int| 0 <= i < stem.len() ==> stem[i] != '.' {
        assert(stem != "."@ && stem != ".."@) by {
            assert("."@[0] == '.' && ".."@[0] == '.');
        }
        names_follow_the_last_slash(directory, stem);
        after_the_mark(stem, '.', stem);
    }
    let hidden = seq!['.'] + e;
    assert(hidden[1] == e[0]);
    assert(hidden != ".."@) by {
        assert(".."@[1] == '.');
    }
    assert(hidden.len() >= 2);
    names_follow_the_last_slash(directory, hidden);
    after_the_mark(Seq::empty(), '.', e);
    assert(Seq::<char>::empty().push('.') + e =~= hidden);
}

/// Images are told by their extension, whatever its case.
pub proof fn images_are_told_by_extension(directory: Seq<char>, stem: Seq<char>, e: Seq<char>)
    requires
        stem.len() > 0,
        forall|i: int| 0 <= i < stem.len() ==> stem[i] != '/',
        e.len() > 0,
        forall|i: int| 0 <= i < e.len() ==> e[i] != '/' && e[i] != '.',
    ensures
        is_image_path(directory.push('/') + (stem.push('.') + e)) <==> lowered(e) == "png"@ || lowered(e) == "jpg"@ || lowered(e)
            == "jpeg"@ || lowered(e) == "gif"@ || lowered(e) == "webp"@,
{
    extensions_follow_the_last_dot(directory, stem, e);
}

/// A capital becomes its small letter, and nothing else changes.
pub proof fn capitals_are_lowered(s: Seq<char>, i: int)
    requires
        0 <= i < s.len(),
    ensures
        lowered(s).len() == s.len(),
        'A' <= s[i] <= 'Z' ==> lowered(s)[i] as int == s[i] as int + 32,
        !('A' <= s[i] <= 'Z') ==> lowered(s)[i] == s[i],
{
}

/// What a task changed, and the later scan still holds, may be sent: each file
/// with its own size and contents, in order.
pub proof fn changed_files_are_found(
    root: DirectoryText,
    files: Map<Seq<char>, EntryText>,
    changed: Seq<DirectoryText>,
    images: bool,
    i: int,
) -> (at: int)
    requires
        0 <= i < changed.len(),
        files.contains_key(changed[i].path),
        images ==> is_image_path(changed[i].path),
    ensures
        ({
            let c = found(root, files, changed, images);
            &&& 0 <= at < c.len()
            &&& c[at].root == root
            &&& c[at].relative == changed[i]
            &&& c[at].bytes == files[changed[i].path].bytes
            &&& c[at].digest == files[changed[i].path].digest
        }),
    decreases changed.len(),
{
    if i == changed.len() - 1 {
        found(root, files, changed, images).len() - 1
    } else {
        assert(changed.drop_last()[i] == changed[i]);
        changed_files_are_found(root, files, changed.drop_last(), images, i)
    }
}

/// Nothing else may be sent: each candidate is a changed file that the later scan
/// holds, and of the generated files an image.
pub proof fn only_changed_files_are_found(
    root: DirectoryText,
    files: Map<Seq<char>, EntryText>,
    changed: Seq<DirectoryText>,
    images: bool,
    at: int,
) -> (i: int)
    requires
        0 <= at < found(root, files, changed, images).len(),
    ensures
        0 <= i < changed.len(),
        files.contains_key(changed[i].path),
        images ==> is_image_path(changed[i].path),
        found(root, files, changed, images)[at].relative == changed[i],
        found(root, files, changed, images)[at].root == root,
    decreases changed.len(),
{
    let before = found(root, files, changed.drop_last(), images);
    if at < before.len() {
        only_changed_files_are_found(root, files, changed.drop_last(), images, at)
    } else {
        changed.len() - 1
    }
}

/// A candidate is passed over only for a reason: it repeats an earlier one, is
/// larger than 20 MiB, or ten files are selected already. The one that is handed
/// out is none of these, and it is the one that is selected once it was opened.
pub proof fn candidates_are_passed_over_for_a_reason(s: SelectionText, j: int)
    requires
        s.next <= s.candidates.len(),
        !s.opening,
    ensures
        ({
            let r = advanced(s);
            let last = if r.opening {
                r.next - 1
            } else {
                r.next as int
            };
            &&& r.candidates == s.candidates
            &&& r.selected == s.selected
            &&& !r.opening ==> r.next == s.candidates.len()
            &&& s.next <= j < last ==> repeats(digests_of(s.candidates.take(j)), s.candidates[j]) || s.candidates[j].bytes
                > 20_971_520 || s.selected.len() >= 10
            &&& r.opening ==> {
                &&& s.next <= last < s.candidates.len()
                &&& !repeats(digests_of(s.candidates.take(last)), s.candidates[last])
                &&& s.candidates[last].bytes <= 20_971_520
                &&& s.selected.len() < 10
                &&& opening_settled(r, true).selected == s.selected.push(s.candidates[last].relative)
                &&& opening_settled(r, false).selected == s.selected
                &&& opening_settled(r, false).omitted == r.omitted + 1
            }
        }),
    decreases s.candidates.len() - s.next,
{
    if s.next < s.candidates.len() {
        let c = s.candidates[s.next as int];
        let t = SelectionText { next: s.next + 1, ..s };
        if repeats(digests_of(s.candidates.take(s.next as int)), c) {
            candidates_are_passed_over_for_a_reason(t, j);
        } else if c.bytes > ARTIFACT_BYTES || s.selected.len() >= ARTIFACTS_PER_TASK {
            candidates_are_passed_over_for_a_reason(SelectionText { omitted: s.omitted + 1, ..t }, j);
        }
    }
}

/// Generated images are looked for in the thread's own directory only.
pub proof fn generated_images_are_of_the_thread(root: DirectoryText, thread: Seq<char>)
    requires
        thread.len() > 0,
        root.path.len() > 0,
        root.path.last() != '/',
    ensures
        (forall|i: int| 0 <= i < thread.len() ==> id_char(#[trigger] thread[i])) ==> (thread_images(Some(root), thread) matches Ok(
            Some(d),
        ) && d.path == root.path + "/"@ + thread),
        !(forall|i: int| 0 <= i < thread.len() ==> id_char(#[trigger] thread[i])) ==> thread_images(Some(root), thread) is Err,
        thread_images(None, thread) == Ok::<Option<DirectoryText>, DeliveryError>(None),
{
}

/// The report says of each file whether it was sent, how many were left out, and
/// whether something may be missing.
pub proof fn reports_say_what_was_sent(path: Seq<char>, uploads: Seq<Seq<char>>, omitted: nat)
    ensures
        upload_line(path, true) == path + "："@ + "已发送"@,
        upload_line(path, false) == path + "："@ + "发送失败、无法读取或超过 20 MiB，未自动重试"@,
        report_lines(uploads, 0, true) == uploads,
        report_lines(uploads, 0, false) == uploads.push("扫描达到上限或部分路径无法读取，差异与成果列表可能不完整。"@),
        omitted > 0 ==> report_lines(uploads, omitted, true) == uploads.push(
            "另有 "@ + decimal(omitted) + " 项因单文件 20 MiB 或每轮 10 项上限未发送。"@,
        ),
        omitted > 0 ==> report_lines(uploads, omitted, false) == report_lines(uploads, omitted, true).push(
            "扫描达到上限或部分路径无法读取，差异与成果列表可能不完整。"@,
        ),
{
}

/// The baseline that was taken for a task is the one that its end is compared
/// with, if the task is still in the same directory.
pub proof fn baselines_are_given_back(
    before: &mut Deliveries,
    after: &mut Deliveries,
    task: String,
    directory: Directory,
    scan: Snapshot,
    name: &str,
    place: Directory,
    taken: Result<(), DeliveryError>,
    r: Result<Option<(Baseline, Option<Baseline>)>, DeliveryError>,
)
    requires
        call_ensures(Deliveries::prepare_files, (before, task, directory, Ok(scan)), taken),
        *old(after) == *final(before),
        name@ == task@,
        call_ensures(Deliveries::finish_files, (after, name, &place), r),
    ensures
        taken is Ok,
        place@.path == directory@.path ==> (r matches Ok(Some((b, _))) && b@.directory == directory@ && b@.snapshot == scan@),
        place@.path != directory@.path ==> r is Err,
        !final(after)@.snapshots.contains_key(task@),
{
}

} // verus!
