//! The directories of files that callers download from and upload to.
//!
//! Paths are texts whose components are separated by `/`.

use vstd::prelude::*;
use vstd::string::*;

use crate::text::{chars_of, is_space, is_whitespace, same_text};

verus! {

/// A name that stands for an immediate member of a directory: not empty, no
/// white space, no separator, and neither of the two directory references.
pub open spec fn is_safe_name(name: Seq<char>) -> bool {
    &&& name.len() > 0
    &&& forall|i: int| 0 <= i < name.len() ==> is_name_char(#[trigger] name[i])
    &&& name != seq!['.']
    &&& name != seq!['.', '.']
}

/// A character that a file name may hold.
pub open spec fn is_name_char(c: char) -> bool {
    !is_space(c) && c != '/' && c != '\\'
}

/// Whether a name stands for an immediate member of a directory.
pub fn is_safe_file_name(name: &str) -> (r: bool)
    ensures
        r == is_safe_name(name@),
{
    let chars: Vec<char> = chars_of(name);
    let n: usize = chars.len();
    if n == 0 {
        return false;
    }
    let mut i: usize = 0;
    while i < n
        invariant
            n == chars@.len(),
            chars@ == name@,
            i <= n,
            forall|x: int| 0 <= x < i ==> is_name_char(#[trigger] name@[x]),
        decreases n - i,
    {
        let c: char = chars[i];
        if is_whitespace(c) || c == '/' || c == '\\' {
            assert(!is_name_char(name@[i as int]));
            return false;
        }
        i = i + 1;
    }
    if n == 1 && chars[0] == '.' {
        assert(name@ =~= seq!['.']);
        return false;
    }
    if n == 2 && chars[0] == '.' && chars[1] == '.' {
        assert(name@ =~= seq!['.', '.']);
        return false;
    }
    true
}

/// The path of a member of a directory.
pub open spec fn child_path(root: Seq<char>, name: Seq<char>) -> Seq<char> {
    if root.len() == 0 || root.last() == '/' {
        root + name
    } else {
        root + seq!['/'] + name
    }
}

/// The name under which an upload is written until it is complete.
pub open spec fn part_name(name: Seq<char>) -> Seq<char> {
    seq!['.'] + name + ".part"@
}

/// A path that is a directory, or lies below it.
pub open spec fn is_within(root: Seq<char>, path: Seq<char>) -> bool {
    path == root || {
        let prefix = child_path(root, Seq::empty());
        prefix.len() <= path.len() && path.take(prefix.len() as int) == prefix
    }
}

/// The path of a member of a directory.
fn join_path(root: &str, name: &str) -> (r: String)
    ensures
        r@ == child_path(root@, name@),
{
    let mut path: String = root.to_owned();
    let chars: Vec<char> = chars_of(root);
    if chars.len() > 0 && chars[chars.len() - 1] != '/' {
        path.push('/');
    }
    path.append(name);
    assert(path@ =~= child_path(root@, name@));
    path
}

/// Whether a path is a directory, or lies below it.
fn path_within(root: &str, path: &str) -> (r: bool)
    ensures
        r == is_within(root@, path@),
{
    if same_text(root, path) {
        return true;
    }
    let prefix: Vec<char> = chars_of(join_path(root, "").as_str());
    let chars: Vec<char> = chars_of(path);
    proof {
        reveal_strlit("");
        assert(""@ =~= Seq::<char>::empty());
    }
    if prefix.len() > chars.len() {
        return false;
    }
    let head: &[char] = vstd::slice::slice_subrange(chars.as_slice(), 0, prefix.len());
    assert(head@ =~= path@.take(prefix@.len() as int));
    crate::text::same_chars(head, prefix.as_slice())
}

/// A file that callers may download.
#[derive(Debug)]
pub struct AvailableFile {
    pub name: String,
    pub size: u64,
}

/// `AvailableFile` as a mathematical value.
pub struct FileView {
    pub name: Seq<char>,
    pub size: u64,
}

impl View for AvailableFile {
    type V = FileView;

    open spec fn view(&self) -> FileView {
        FileView { name: self.name@, size: self.size }
    }
}

/// The listed files as mathematical values.
pub open spec fn file_views(files: Seq<AvailableFile>) -> Seq<FileView> {
    Seq::new(files.len(), |i: int| files[i]@)
}

/// An entry found in a directory. The name is missing where it is not Unicode.
pub struct DirectoryEntry {
    pub name: Option<String>,
    pub is_file: bool,
    pub size: u64,
}

/// The file that an entry offers for download, if any: a regular file with a
/// safe name.
pub open spec fn offered(entry: DirectoryEntry) -> Option<FileView> {
    match entry.name {
        Some(name) => if entry.is_file && is_safe_name(name@) {
            Some(FileView { name: name@, size: entry.size })
        } else {
            None
        },
        None => None,
    }
}

/// Two texts in the order of their characters.
pub open spec fn in_order(a: Seq<char>, b: Seq<char>) -> bool
    decreases a.len(),
{
    if a.len() == 0 {
        true
    } else if b.len() == 0 {
        false
    } else if a[0] != b[0] {
        a[0] < b[0]
    } else {
        in_order(a.drop_first(), b.drop_first())
    }
}

/// How many files at the front of a list come no later than `name`.
pub open spec fn rank(files: Seq<FileView>, name: Seq<char>) -> int
    decreases files.len(),
{
    if files.len() == 0 || !in_order(files[0].name, name) {
        0
    } else {
        1 + rank(files.drop_first(), name)
    }
}

/// The files that some entries offer, by name; files of one name stay in the
/// order in which they were found.
pub open spec fn listing(entries: Seq<DirectoryEntry>) -> Seq<FileView>
    decreases entries.len(),
{
    if entries.len() == 0 {
        Seq::empty()
    } else {
        let rest = listing(entries.drop_last());
        match offered(entries.last()) {
            Some(file) => rest.insert(rank(rest, file.name), file),
            None => rest,
        }
    }
}

/// Whether two texts are in the order of their characters.
fn texts_in_order(a: &str, b: &str) -> (r: bool)
    ensures
        r == in_order(a@, b@),
{
    let x: Vec<char> = chars_of(a);
    let y: Vec<char> = chars_of(b);
    let mut i: usize = 0;
    assert(x@.skip(0) =~= x@);
    assert(y@.skip(0) =~= y@);
    while i < x.len() && i < y.len()
        invariant
            x@ == a@,
            y@ == b@,
            i <= x@.len(),
            i <= y@.len(),
            in_order(a@, b@) == in_order(x@.skip(i as int), y@.skip(i as int)),
        decreases x@.len() - i,
    {
        if x[i] != y[i] {
            return x[i] < y[i];
        }
        assert(x@.skip(i as int).drop_first() =~= x@.skip(i + 1));
        assert(y@.skip(i as int).drop_first() =~= y@.skip(i + 1));
        i = i + 1;
    }
    i == x.len()
}

proof fn lemma_rank(files: Seq<FileView>, name: Seq<char>, k: int)
    requires
        0 <= k <= files.len(),
        forall|i: int| 0 <= i < k ==> in_order((#[trigger] files[i]).name, name),
        k < files.len() ==> !in_order(files[k].name, name),
    ensures
        rank(files, name) == k,
    decreases files.len(),
{
    if k > 0 {
        assert(in_order(files[0].name, name));
        let rest = files.drop_first();
        assert forall|i: int| 0 <= i < k - 1 implies in_order((#[trigger] rest[i]).name, name) by {
            assert(rest[i] == files[i + 1]);
        }
        lemma_rank(rest, name, k - 1);
    }
}

/// Why a file cannot be served.
#[derive(Clone, Copy, Debug, Eq, PartialEq, Structural)]
pub enum FileError {
    /// The name is not a single, non-whitespace path component.
    UnsafeName,
    /// The file could not be examined.
    Unreadable,
}

impl FileError {
    /// The words in which the failure is reported.
    pub fn message(&self) -> (r: &'static str)
        ensures
            r@ == (match self {
                FileError::UnsafeName =>
                    "file name must be a single, non-whitespace path component"@,
                FileError::Unreadable => "file cannot be examined"@,
            }),
    {
        match self {
            FileError::UnsafeName => "file name must be a single, non-whitespace path component",
            FileError::Unreadable => "file cannot be examined",
        }
    }
}

/// What looking for a file on disk has shown.
pub enum FileProbe {
    /// There is no such file.
    Missing,
    /// It could not be examined.
    Unreadable,
    /// It is a directory, a symbolic link or another special file.
    NotRegular,
    /// A regular file, with its resolved path.
    Regular(String),
}

/// Where to look for a file to download.
pub open spec fn download_at(root: Seq<char>, name: Seq<char>) -> Result<Seq<char>, FileError> {
    if is_safe_name(name) {
        Ok(child_path(root, name))
    } else {
        Err(FileError::UnsafeName)
    }
}

/// What looking for a file to download comes to: its resolved path, if it is
/// served.
pub open spec fn download_found(root: Seq<char>, name: Seq<char>, probe: FileProbe) -> Result<
    Option<Seq<char>>,
    FileError,
> {
    if !is_safe_name(name) {
        Err(FileError::UnsafeName)
    } else {
        match probe {
            FileProbe::Unreadable => Err(FileError::Unreadable),
            FileProbe::Regular(path) => if is_within(root, path@) {
                Ok(Some(path@))
            } else {
                Ok(None)
            },
            _ => Ok(None),
        }
    }
}

/// Where an upload is kept in the end, and where it is written until then.
pub open spec fn upload_at(root: Seq<char>, name: Seq<char>) -> Result<
    (Seq<char>, Seq<char>),
    FileError,
> {
    if is_safe_name(name) {
        Ok((child_path(root, name), child_path(root, part_name(name))))
    } else {
        Err(FileError::UnsafeName)
    }
}

/// A directory of files.
#[derive(Debug)]
pub struct FileArea {
    pub root: String,
}

impl Clone for FileArea {
    fn clone(&self) -> (r: Self)
        ensures
            r.root@ == self.root@,
    {
        FileArea { root: self.root.clone() }
    }
}

impl FileArea {
    /// The area below a resolved directory.
    pub fn open(root: String) -> (r: FileArea)
        ensures
            r.root@ == root@,
    {
        FileArea { root }
    }

    /// The files that the directory offers for download, by name.
    pub fn list(&self, entries: Vec<DirectoryEntry>) -> (r: Vec<AvailableFile>)
        ensures
            file_views(r@) == listing(entries@),
    {
        let mut files: Vec<AvailableFile> = Vec::new();
        let mut i: usize = 0;
        assert(file_views(files@) =~= listing(entries@.take(0)));
        while i < entries.len()
            invariant
                i <= entries@.len(),
                file_views(files@) == listing(entries@.take(i as int)),
            decreases entries@.len() - i,
        {
            let entry: &DirectoryEntry = &entries[i];
            proof {
                assert(entries@.take(i + 1).drop_last() =~= entries@.take(i as int));
                assert(entries@.take(i + 1).last() == entries@[i as int]);
            }
            if let Some(name) = &entry.name {
                if entry.is_file && is_safe_file_name(name.as_str()) {
                    let mut at: usize = 0;
                    while at < files.len() && texts_in_order(files[at].name.as_str(), name.as_str())
                        invariant
                            at <= files@.len(),
                            forall|x: int|
                                0 <= x < at ==> in_order((#[trigger] file_views(files@)[x]).name, name@),
                        decreases files@.len() - at,
                    {
                        at = at + 1;
                    }
                    let ghost before = file_views(files@);
                    proof {
                        lemma_rank(before, name@, at as int);
                    }
                    let file: AvailableFile = AvailableFile {
                        name: name.clone(),
                        size: entry.size,
                    };
                    let ghost new = file@;
                    files.insert(at, file);
                    assert(file_views(files@) =~= before.insert(at as int, new));
                }
            }
            i = i + 1;
        }
        assert(entries@.take(i as int) =~= entries@);
        files
    }

    /// The path at which to look for a file to download.
    pub fn download_path(&self, name: &str) -> (r: Result<String, FileError>)
        ensures
            match r {
                Ok(path) => is_safe_name(name@) && path@ == child_path(self.root@, name@),
                Err(error) => !is_safe_name(name@) && error == FileError::UnsafeName,
            },
            match r {
                Ok(path) => download_at(self.root@, name@) == Ok::<Seq<char>, FileError>(path@),
                Err(error) => download_at(self.root@, name@) == Err::<Seq<char>, FileError>(error),
            },
    {
        if !is_safe_file_name(name) {
            return Err(FileError::UnsafeName);
        }
        Ok(join_path(self.root.as_str(), name))
    }

    /// The resolved path of a file to download, given what looking for it has
    /// shown: only a regular file below the root is served.
    pub fn resolve_download(&self, name: &str, probe: FileProbe) -> (r: Result<
        Option<String>,
        FileError,
    >)
        ensures
            !is_safe_name(name@) ==> r == Err::<Option<String>, FileError>(FileError::UnsafeName),
            is_safe_name(name@) ==> match probe {
                FileProbe::Unreadable => r == Err::<Option<String>, FileError>(
                    FileError::Unreadable,
                ),
                FileProbe::Regular(path) => if is_within(self.root@, path@) {
                    r == Ok::<Option<String>, FileError>(Some(path))
                } else {
                    r == Ok::<Option<String>, FileError>(None)
                },
                _ => r == Ok::<Option<String>, FileError>(None),
            },
            match r {
                Ok(Some(path)) => download_found(self.root@, name@, probe) == Ok::<
                    Option<Seq<char>>,
                    FileError,
                >(Some(path@)),
                Ok(None) => download_found(self.root@, name@, probe) == Ok::<
                    Option<Seq<char>>,
                    FileError,
                >(None),
                Err(error) => download_found(self.root@, name@, probe) == Err::<
                    Option<Seq<char>>,
                    FileError,
                >(error),
            },
    {
        if !is_safe_file_name(name) {
            return Err(FileError::UnsafeName);
        }
        match probe {
            FileProbe::Missing => Ok(None),
            FileProbe::Unreadable => Err(FileError::Unreadable),
            FileProbe::NotRegular => Ok(None),
            FileProbe::Regular(path) => {
                if path_within(self.root.as_str(), path.as_str()) {
                    Ok(Some(path))
                } else {
                    Ok(None)
                }
            },
        }
    }

    /// Where an upload is kept in the end, and where it is written until then.
    pub fn upload_paths(&self, name: &str) -> (r: Result<(String, String), FileError>)
        ensures
            match r {
                Ok((final_path, part_path)) => {
                    &&& is_safe_name(name@)
                    &&& final_path@ == child_path(self.root@, name@)
                    &&& part_path@ == child_path(self.root@, part_name(name@))
                },
                Err(error) => !is_safe_name(name@) && error == FileError::UnsafeName,
            },
            match r {
                Ok((final_path, part_path)) => upload_at(self.root@, name@) == Ok::<
                    (Seq<char>, Seq<char>),
                    FileError,
                >((final_path@, part_path@)),
                Err(error) => upload_at(self.root@, name@) == Err::<
                    (Seq<char>, Seq<char>),
                    FileError,
                >(error),
            },
    {
        if !is_safe_file_name(name) {
            return Err(FileError::UnsafeName);
        }
        let mut part: String = String::new();
        part.push('.');
        part.append(name);
        part.append(".part");
        assert(part@ =~= part_name(name@));
        Ok((join_path(self.root.as_str(), name), join_path(self.root.as_str(), part.as_str())))
    }
}

/// Files in the order of their names.
pub open spec fn is_sorted(files: Seq<FileView>) -> bool {
    forall|i: int, j: int|
        0 <= i <= j < files.len() ==> in_order(
            (#[trigger] files[i]).name,
            (#[trigger] files[j]).name,
        )
}

/// The offered files as they were found.
pub open spec fn found(entries: Seq<DirectoryEntry>) -> Seq<FileView>
    decreases entries.len(),
{
    if entries.len() == 0 {
        Seq::empty()
    } else {
        match offered(entries.last()) {
            Some(file) => found(entries.drop_last()).push(file),
            None => found(entries.drop_last()),
        }
    }
}

proof fn lemma_order_total(a: Seq<char>, b: Seq<char>)
    ensures
        in_order(a, b) || in_order(b, a),
    decreases a.len(),
{
    if a.len() > 0 && b.len() > 0 && a[0] == b[0] {
        lemma_order_total(a.drop_first(), b.drop_first());
    }
}

proof fn lemma_order_transitive(a: Seq<char>, b: Seq<char>, c: Seq<char>)
    requires
        in_order(a, b),
        in_order(b, c),
    ensures
        in_order(a, c),
    decreases a.len(),
{
    if a.len() > 0 && b.len() > 0 && c.len() > 0 && a[0] == b[0] && b[0] == c[0] {
        lemma_order_transitive(a.drop_first(), b.drop_first(), c.drop_first());
    }
}

proof fn lemma_rank_bounds(files: Seq<FileView>, name: Seq<char>)
    ensures
        0 <= rank(files, name) <= files.len(),
        forall|i: int| 0 <= i < rank(files, name) ==> in_order((#[trigger] files[i]).name, name),
        rank(files, name) < files.len() ==> !in_order(files[rank(files, name)].name, name),
    decreases files.len(),
{
    if files.len() != 0 && in_order(files[0].name, name) {
        let rest = files.drop_first();
        lemma_rank_bounds(rest, name);
        assert forall|i: int| 0 <= i < rank(files, name) implies in_order(
            (#[trigger] files[i]).name,
            name,
        ) by {
            if i > 0 {
                assert(rest[i - 1] == files[i]);
            }
        }
    }
}

/// The listing is in the order of the names, and holds each offered file as
/// often as it was found.
pub proof fn law_listing_is_sorted(entries: Seq<DirectoryEntry>)
    ensures
        is_sorted(listing(entries)),
        listing(entries).to_multiset() == found(entries).to_multiset(),
    decreases entries.len(),
{
    if entries.len() == 0 {
        assert(listing(entries) =~= found(entries));
    } else {
        let front = entries.drop_last();
        law_listing_is_sorted(front);
        let rest = listing(front);
        if let Some(file) = offered(entries.last()) {
            lemma_rank_bounds(rest, file.name);
            let k = rank(rest, file.name);
            let all = rest.insert(k, file);
            assert forall|i: int, j: int| 0 <= i <= j < all.len() implies in_order(
                (#[trigger] all[i]).name,
                (#[trigger] all[j]).name,
            ) by {
                lemma_order_total(all[i].name, all[i].name);
                if i < k && j == k {
                    assert(all[i] == rest[i]);
                } else if j > k {
                    assert(all[j] == rest[j - 1]);
                    if i < k {
                        assert(all[i] == rest[i]);
                    } else if i > k {
                        assert(all[i] == rest[i - 1]);
                    } else {
                        lemma_order_total(file.name, rest[k].name);
                        assert(in_order(file.name, rest[k].name));
                        assert(in_order(rest[k].name, rest[j - 1].name));
                        lemma_order_transitive(file.name, rest[k].name, rest[j - 1].name);
                    }
                } else if i < k {
                    assert(all[i] == rest[i]);
                    assert(all[j] == rest[j]);
                }
            }
            rest.to_multiset_ensures();
            vstd::seq_lib::to_multiset_insert(rest, k, file);
            vstd::seq_lib::to_multiset_build(found(front), file);
        }
    }
}

/// Every listed file can be asked for by the name under which it is listed, and
/// no other is listed.
pub proof fn law_listed_files_are_offered(entries: Seq<DirectoryEntry>, file: FileView)
    ensures
        listing(entries).contains(file) <==> exists|i: int|
            0 <= i < entries.len() && #[trigger] offered(entries[i]) == Some(file),
        listing(entries).contains(file) ==> is_safe_name(file.name),
    decreases entries.len(),
{
    if entries.len() > 0 {
        let front = entries.drop_last();
        law_listed_files_are_offered(front, file);
        let rest = listing(front);
        let all = listing(entries);
        if let Some(last) = offered(entries.last()) {
            lemma_rank_bounds(rest, last.name);
            let k = rank(rest, last.name);
            assert(all == rest.insert(k, last));
            assert(all[k] == last);
            if rest.contains(file) {
                let x = choose|x: int| 0 <= x < rest.len() && rest[x] == file;
                assert(all[if x < k {
                    x
                } else {
                    x + 1
                }] == file);
            }
            if all.contains(file) && file != last {
                let x = choose|x: int| 0 <= x < all.len() && all[x] == file;
                assert(rest[if x < k {
                    x
                } else {
                    x - 1
                }] == file);
            }
        }
        if rest.contains(file) {
            let i = choose|i: int|
                0 <= i < front.len() && #[trigger] offered(front[i]) == Some(file);
            assert(offered(entries[i]) == Some(file));
        }
        if exists|i: int| 0 <= i < entries.len() && #[trigger] offered(entries[i]) == Some(file) {
            let i = choose|i: int|
                0 <= i < entries.len() && #[trigger] offered(entries[i]) == Some(file);
            if i < front.len() {
                assert(offered(front[i]) == Some(file));
            }
        }
        if all.contains(file) && offered(entries.last()) == Some(file) {
            assert(offered(entries[entries.len() - 1]) == Some(file));
        }
    }
}

/// What is uploaded under a safe name stays an immediate member of the
/// directory: both paths are the directory's own path, one separator and a name
/// without a separator, and they differ.
pub proof fn law_uploads_stay_in_directory(root: Seq<char>, name: Seq<char>)
    requires
        is_safe_name(name),
    ensures
        is_within(root, child_path(root, name)),
        is_within(root, child_path(root, part_name(name))),
        child_path(root, name) == child_path(root, Seq::empty()) + name,
        child_path(root, part_name(name)) == child_path(root, Seq::empty()) + part_name(name),
        !name.contains('/'),
        is_safe_name(part_name(name)),
        child_path(root, name) != child_path(root, part_name(name)),
{
    reveal_strlit(".part");
    let part = part_name(name);
    let prefix = child_path(root, Seq::empty());
    assert(child_path(root, name) =~= prefix + name);
    assert(child_path(root, part) =~= prefix + part);
    assert(child_path(root, name).take(prefix.len() as int) =~= prefix);
    assert(child_path(root, part).take(prefix.len() as int) =~= prefix);
    assert forall|i: int| 0 <= i < part.len() implies is_name_char(#[trigger] part[i]) by {
        if 1 <= i < 1 + name.len() {
            assert(part[i] == name[i - 1]);
            assert(is_name_char(name[i - 1]));
        }
    }
    assert(part.len() == name.len() + 6);
    if name.contains('/') {
        let i = choose|i: int| 0 <= i < name.len() && name[i] == '/';
        assert(is_name_char(name[i]));
    }
    assert(child_path(root, name).len() != child_path(root, part).len());
}

/// Two uploads under different names share no path.
pub proof fn law_uploads_do_not_collide(root: Seq<char>, a: Seq<char>, b: Seq<char>)
    requires
        a != b,
    ensures
        child_path(root, a) != child_path(root, b),
        child_path(root, part_name(a)) != child_path(root, part_name(b)),
{
    let prefix = child_path(root, Seq::empty());
    assert(child_path(root, a) =~= prefix + a);
    assert(child_path(root, b) =~= prefix + b);
    assert(child_path(root, part_name(a)) =~= prefix + part_name(a));
    assert(child_path(root, part_name(b)) =~= prefix + part_name(b));
    if prefix + a == prefix + b {
        assert((prefix + a).skip(prefix.len() as int) =~= a);
        assert((prefix + b).skip(prefix.len() as int) =~= b);
    }
    let x = prefix + part_name(a);
    let y = prefix + part_name(b);
    if x == y {
        assert(x.subrange(prefix.len() as int + 1, x.len() - ".part"@.len()) =~= a);
        assert(y.subrange(prefix.len() as int + 1, y.len() - ".part"@.len()) =~= b);
    }
}

/// A safe name is any that has a character, none of them white space, a slash or
/// a backslash, and is neither of the two directory references.
pub proof fn law_safe_names(name: Seq<char>)
    ensures
        is_safe_name(name) <==> {
            &&& name.len() > 0
            &&& !name.contains('/')
            &&& !name.contains('\\')
            &&& forall|i: int| 0 <= i < name.len() ==> !is_space(#[trigger] name[i])
            &&& name != "."@
            &&& name != ".."@
        },
{
    reveal_strlit(".");
    reveal_strlit("..");
    assert("."@ =~= seq!['.']);
    assert(".."@ =~= seq!['.', '.']);
    if is_safe_name(name) {
        assert forall|i: int| 0 <= i < name.len() implies !is_space(#[trigger] name[i]) by {
            assert(is_name_char(name[i]));
        }
        if name.contains('/') {
            let i = choose|i: int| 0 <= i < name.len() && name[i] == '/';
            assert(is_name_char(name[i]));
        }
        if name.contains('\\') {
            let i = choose|i: int| 0 <= i < name.len() && name[i] == '\\';
            assert(is_name_char(name[i]));
        }
    } else if name.len() > 0 && !name.contains('/') && !name.contains('\\') && (forall|i: int|
        0 <= i < name.len() ==> !is_space(#[trigger] name[i])) {
        assert forall|i: int| 0 <= i < name.len() implies is_name_char(#[trigger] name[i]) by {
            assert(name.contains(name[i]));
            assert(!is_space(name[i]));
        }
    }
}

/// A member of a directory has the path of the directory and its own name, with
/// one slash between them. An upload is written under its name with a period in
/// front and `.part` behind.
pub proof fn law_paths(root: Seq<char>, name: Seq<char>, path: Seq<char>)
    ensures
        root.len() > 0 && root.last() != '/' ==> child_path(root, name) == root + "/"@ + name,
        child_path(root.push('/'), name) == root + "/"@ + name,
        child_path(Seq::empty(), name) == name,
        part_name(name) == "."@ + name + ".part"@,
        is_within(root, root),
        is_within(root, child_path(root, name)),
        root.len() > 0 && root.last() != '/' && is_within(root, path) && path != root ==> (root
            + "/"@).is_prefix_of(path),
{
    reveal_strlit("/");
    reveal_strlit(".");
    assert("/"@ =~= seq!['/']);
    assert("."@ =~= seq!['.']);
    assert(root.push('/') + name =~= root + "/"@ + name);
    assert(Seq::<char>::empty() + name =~= name);
    let prefix = child_path(root, Seq::empty());
    assert(child_path(root, name) =~= prefix + name);
    assert((prefix + name).take(prefix.len() as int) =~= prefix);
    if root.len() > 0 && root.last() != '/' {
        assert(prefix =~= root + "/"@);
        if is_within(root, path) && path != root {
            assert(path.take(prefix.len() as int) =~= path.subrange(0, prefix.len() as int));
        }
    }
}

/// An entry is offered where it is a regular file with a safe name in Unicode,
/// and then under that name and with its size; nothing else is listed.
pub proof fn law_regular_files_are_listed(
    entries: Seq<DirectoryEntry>,
    name: Seq<char>,
    size: u64,
)
    ensures
        listing(entries).contains(FileView { name, size }) <==> is_safe_name(name) && exists|i: int|
            0 <= i < entries.len() && {
                &&& (#[trigger] entries[i]).is_file
                &&& entries[i].size == size
                &&& entries[i].name is Some
                &&& entries[i].name->0@ == name
            },
{
    let file = FileView { name, size };
    law_listed_files_are_offered(entries, file);
    if listing(entries).contains(file) {
        let i = choose|i: int|
            0 <= i < entries.len() && #[trigger] offered(entries[i]) == Some(file);
        assert(entries[i].is_file);
    }
    if is_safe_name(name) && exists|i: int|
        0 <= i < entries.len() && {
            &&& (#[trigger] entries[i]).is_file
            &&& entries[i].size == size
            &&& entries[i].name is Some
            &&& entries[i].name->0@ == name
        } {
        let i = choose|i: int|
            0 <= i < entries.len() && {
                &&& (#[trigger] entries[i]).is_file
                &&& entries[i].size == size
                &&& entries[i].name is Some
                &&& entries[i].name->0@ == name
            };
        assert(offered(entries[i]) == Some(file));
    }
}

/// One more entry adds its own file to a listing, or nothing: every listing is as
/// long as there are entries that offer a file.
pub proof fn law_each_file_is_listed_once(entries: Seq<DirectoryEntry>, entry: DirectoryEntry)
    ensures
        listing(Seq::empty()) == Seq::<FileView>::empty(),
        entry.is_file && entry.name is Some && is_safe_name(entry.name->0@) ==> listing(
            entries.push(entry),
        ).to_multiset() == listing(entries).to_multiset().insert(
            FileView { name: entry.name->0@, size: entry.size },
        ),
        !(entry.is_file && entry.name is Some && is_safe_name(entry.name->0@)) ==> listing(
            entries.push(entry),
        ) == listing(entries),
{
    let more = entries.push(entry);
    assert(more.drop_last() =~= entries);
    if entry.is_file && entry.name is Some && is_safe_name(entry.name->0@) {
        law_listing_is_sorted(entries);
        law_listing_is_sorted(more);
        let file = FileView { name: entry.name->0@, size: entry.size };
        assert(found(more) == found(entries).push(file));
        vstd::seq_lib::to_multiset_build(found(entries), file);
    }
}

/// Names are in the order of their first difference: equal beginnings do not
/// matter, the smaller character comes first, and so does the shorter name.
pub proof fn law_order_of_names(p: Seq<char>, x: Seq<char>, y: Seq<char>, c: char, d: char)
    ensures
        in_order(p + x, p + y) == in_order(x, y),
        in_order(p, p + y),
        in_order(p + y, p) ==> y.len() == 0,
        c < d ==> in_order(p + seq![c] + x, p + seq![d] + y),
        c < d ==> !in_order(p + seq![d] + y, p + seq![c] + x),
    decreases p.len(),
{
    if p.len() == 0 {
        assert(p + x =~= x);
        assert(p + y =~= y);
        assert(p + seq![c] + x =~= seq![c] + x);
        assert(p + seq![d] + y =~= seq![d] + y);
    } else {
        let q = p.drop_first();
        law_order_of_names(q, x, y, c, d);
        assert((p + x).drop_first() =~= q + x);
        assert((p + y).drop_first() =~= q + y);
        assert((p + seq![c] + x).drop_first() =~= q + seq![c] + x);
        assert((p + seq![d] + y).drop_first() =~= q + seq![d] + y);
    }
}

/// What is handed over as a mathematical value is what a listed file holds, and
/// every file of a list in its place.
pub proof fn law_files_are_what_is_held(files: Seq<AvailableFile>, i: int)
    requires
        0 <= i < files.len(),
    ensures
        file_views(files).len() == files.len(),
        file_views(files)[i].name == files[i].name@,
        file_views(files)[i].size == files[i].size,
{
}

/// A download is looked for under its own name in the directory, and served from
/// the path at which it was found where that is a regular file below the
/// directory; nothing else is served. A name that is not safe is refused, and so
/// is a file that cannot be examined.
pub proof fn law_downloads_are_served_from_the_directory(
    root: Seq<char>,
    name: Seq<char>,
    path: String,
)
    requires
        root.len() > 0,
        root.last() != '/',
    ensures
        ({
            let find = |probe: FileProbe| download_found(root, name, probe);
            let below = path@ == root || (root + "/"@).is_prefix_of(path@);
            &&& !is_safe_name(name) ==> {
                &&& download_at(root, name) == Err::<Seq<char>, FileError>(FileError::UnsafeName)
                &&& upload_at(root, name) == Err::<(Seq<char>, Seq<char>), FileError>(
                    FileError::UnsafeName,
                )
                &&& find(FileProbe::Regular(path)) == Err::<Option<Seq<char>>, FileError>(
                    FileError::UnsafeName,
                )
                &&& find(FileProbe::Missing) is Err && find(FileProbe::NotRegular) is Err
                &&& find(FileProbe::Unreadable) is Err
            }
            &&& is_safe_name(name) ==> {
                &&& download_at(root, name) == Ok::<Seq<char>, FileError>(root + "/"@ + name)
                &&& upload_at(root, name) == Ok::<(Seq<char>, Seq<char>), FileError>(
                    (root + "/"@ + name, root + "/"@ + ("."@ + name + ".part"@)),
                )
                &&& find(FileProbe::Regular(path)) == Ok::<Option<Seq<char>>, FileError>(
                    if below {
                        Some(path@)
                    } else {
                        None
                    },
                )
                &&& find(FileProbe::Missing) == Ok::<Option<Seq<char>>, FileError>(None)
                &&& find(FileProbe::NotRegular) == Ok::<Option<Seq<char>>, FileError>(None)
                &&& find(FileProbe::Unreadable) == Err::<Option<Seq<char>>, FileError>(
                    FileError::Unreadable,
                )
            }
        }),
{
    law_paths(root, name, path@);
    law_paths(root, part_name(name), path@);
    let prefix = child_path(root, Seq::empty());
    reveal_strlit("/");
    assert("/"@ =~= seq!['/']);
    assert(prefix =~= root + "/"@);
    if (root + "/"@).is_prefix_of(path@) {
        assert(path@.take(prefix.len() as int) =~= path@.subrange(0, prefix.len() as int));
    }
}

} // verus!
