//! The xbps package: the manifest of an installed tree, the package
//! properties and the name of the archive.

use crate::digest::{digest_of, hash};
use crate::objects::{names, BuildSpec};
use vstd::prelude::*;

verus! {

/// Why a package could not be assembled.
#[derive(Debug, Clone, Copy, PartialEq, Eq, Structural)]
pub enum Error {
    Io,
    SystemTime,
    StripPrefix,
    InvalidFilePath,
    CommandStatus,
}

/// The properties document of a package.
pub struct PkgProps {
    pub architecture: String,
    pub installed_size: u64,
    pub pkgname: String,
    pub pkgver: String,
    pub run_depends: Vec<String>,
    pub version: String,
    pub short_desc: Option<String>,
    pub homepage: Option<String>,
    pub license: Option<String>,
    pub maintainer: Option<String>,
}

/// A directory of the manifest, by its path below the package root.
pub struct PkgDir {
    pub file: String,
}

/// A regular file of the manifest: its path below the package root, its
/// modification time in seconds since the Unix epoch and the digest of its
/// content.
pub struct PkgFile {
    pub file: String,
    pub mtime: u64,
    pub sha256: String,
}

/// The manifest: the directories and the regular files of a package, in the
/// order in which the walk met them.
pub struct PkgFiles {
    pub dirs: Vec<PkgDir>,
    pub files: Vec<PkgFile>,
}

/// What a manifest says of one regular file.
pub struct FileRecord {
    pub file: Seq<char>,
    pub mtime: u64,
    pub sha256: Seq<char>,
}

impl PkgFiles {
    pub fn new() -> (files: PkgFiles)
        ensures
            files.dir_paths() == Seq::<Seq<char>>::empty(),
            files.file_records() == Seq::<FileRecord>::empty(),
    {
        let files = PkgFiles { dirs: Vec::new(), files: Vec::new() };
        proof {
            assert(files.dir_paths() =~= Seq::<Seq<char>>::empty());
            assert(files.file_records() =~= Seq::<FileRecord>::empty());
        }
        files
    }

    /// The paths of the directory records, in order.
    pub open spec fn dir_paths(self) -> Seq<Seq<char>> {
        Seq::new(self.dirs@.len(), |i: int| self.dirs@[i].file@)
    }

    /// The file records, in order.
    pub open spec fn file_records(self) -> Seq<FileRecord> {
        Seq::new(
            self.files@.len(),
            |i: int|
                (FileRecord {
                    file: self.files@[i].file@,
                    mtime: self.files@[i].mtime,
                    sha256: self.files@[i].sha256@,
                }),
        )
    }
}

/// What the file system reports of a regular file. `modified` is the
/// modification time in whole seconds since the Unix epoch, absent where the
/// file system reports a time before it; `content` is absent where the file
/// cannot be read.
pub struct FileInfo {
    pub modified: Option<u64>,
    pub len: u64,
    pub content: Option<Vec<u8>>,
}

/// What an entry is: a directory with its entries, a regular file, or
/// anything else.
pub enum EntryKind {
    Dir(Vec<Entry>),
    File(FileInfo),
    Other,
}

/// One entry of a directory, with what lies below it. The entries of a
/// directory stand in the order in which the file system lists them. An
/// entry named `..` has no file name of its own, as a path that ends in `..`
/// has none.
pub struct Entry {
    pub name: String,
    pub kind: EntryKind,
}

/// A symbolic link to make at `target`, pointing at `path`. Both are paths
/// written as their components.
pub struct Link {
    pub path: Vec<String>,
    pub target: Vec<String>,
}

/// What a link says, by the views of its paths.
pub struct LinkRecord {
    pub path: Seq<Seq<char>>,
    pub target: Seq<Seq<char>>,
}

/// The links of a list, in order, by the views of their paths.
pub open spec fn link_records(links: Seq<Link>) -> Seq<LinkRecord> {
    Seq::new(
        links.len(),
        |i: int| (LinkRecord { path: names(links[i].path@), target: names(links[i].target@) }),
    )
}

/// The path that is left of `path` once the leading components `root` are
/// taken off, where `path` begins with them.
pub open spec fn stripped(root: Seq<Seq<char>>, path: Seq<Seq<char>>) -> Option<Seq<Seq<char>>> {
    if root.len() <= path.len() && (forall|i: int| 0 <= i < root.len() ==> path[i] == root[i]) {
        Some(path.skip(root.len() as int))
    } else {
        None
    }
}

/// The components of a path with `/` between them.
pub open spec fn joined(rel: Seq<Seq<char>>) -> Seq<char>
    decreases rel.len(),
{
    if rel.len() == 0 {
        Seq::empty()
    } else if rel.len() == 1 {
        rel[0]
    } else {
        joined(rel.drop_last()) + "/"@ + rel.last()
    }
}

/// A path below the package root as a manifest writes it: rooted at `/`.
pub open spec fn rendered(rel: Seq<Seq<char>>) -> Seq<char> {
    "/"@ + joined(rel)
}

/// The name that stands for the parent directory. A path that ends in it has
/// no file name.
pub open spec fn is_parent_name(name: Seq<char>) -> bool {
    name.len() == 2 && name[0] == '.' && name[1] == '.'
}

/// What a walk has recorded so far, and the error that ended it, if any.
pub struct Walked {
    pub dirs: Seq<Seq<char>>,
    pub files: Seq<FileRecord>,
    pub links: Seq<LinkRecord>,
    pub size: nat,
    pub error: Option<Error>,
}

impl Walked {
    pub open spec fn nothing() -> Walked {
        Walked {
            dirs: Seq::empty(),
            files: Seq::empty(),
            links: Seq::empty(),
            size: 0,
            error: None,
        }
    }

    pub open spec fn linked(links: Seq<LinkRecord>) -> Walked {
        Walked { links, ..Walked::nothing() }
    }

    pub open spec fn failed(self, error: Error) -> Walked {
        Walked { error: Some(error), ..self }
    }

    /// This walk, and after it `next`.
    pub open spec fn followed_by(self, next: Walked) -> Walked {
        Walked {
            dirs: self.dirs + next.dirs,
            files: self.files + next.files,
            links: self.links + next.links,
            size: self.size + next.size,
            error: next.error,
        }
    }
}

/// The walk of one entry of the directory `dir`.
///
/// With a link directory, the entry is first mirrored there by a link of its
/// own name, which fails for an entry without a file name. A directory is
/// recorded and then walked, without a link directory. A regular file is
/// recorded with its modification time and the digest of its content, and
/// counts with its length. Anything else is passed over.
pub open spec fn walk_entry(
    root: Seq<Seq<char>>,
    dir: Seq<Seq<char>>,
    entry: Entry,
    linkdir: Option<Seq<Seq<char>>>,
) -> Walked
    decreases entry, 0nat,
{
    let path = dir.push(entry.name@);
    if linkdir is Some && is_parent_name(entry.name@) {
        Walked::nothing().failed(Error::InvalidFilePath)
    } else {
        let mirrored = Walked::linked(
            match linkdir {
                Some(l) => seq![(LinkRecord { path, target: l.push(entry.name@) })],
                None => Seq::empty(),
            },
        );
        match entry.kind {
            EntryKind::Dir(children) => match stripped(root, path) {
                None => mirrored.failed(Error::StripPrefix),
                Some(rel) => (Walked { dirs: seq![rendered(rel)], ..mirrored }).followed_by(
                    walk_upto(root, path, children@, children@.len(), None),
                ),
            },
            EntryKind::File(info) => match stripped(root, path) {
                None => mirrored.failed(Error::StripPrefix),
                Some(rel) => if info.modified is None {
                    mirrored.failed(Error::SystemTime)
                } else if info.content is None {
                    mirrored.failed(Error::Io)
                } else {
                    Walked {
                        files: seq![
                            (FileRecord {
                                file: rendered(rel),
                                mtime: info.modified->0,
                                sha256: digest_of(info.content->0@),
                            }),
                        ],
                        size: info.len as nat,
                        ..mirrored
                    }
                },
            },
            EntryKind::Other => mirrored,
        }
    }
}

/// The walk of the first `n` entries of the directory `dir`, in their order.
/// It ends at the first entry that fails.
pub open spec fn walk_upto(
    root: Seq<Seq<char>>,
    dir: Seq<Seq<char>>,
    entries: Seq<Entry>,
    n: nat,
    linkdir: Option<Seq<Seq<char>>>,
) -> Walked
    decreases entries, n,
{
    if n == 0 || n > entries.len() {
        Walked::nothing()
    } else {
        let before = walk_upto(root, dir, entries, (n - 1) as nat, linkdir);
        if before.error is Some {
            before
        } else {
            before.followed_by(walk_entry(root, dir, entries[n - 1], linkdir))
        }
    }
}

/// The walk of a whole directory.
pub open spec fn walk(
    root: Seq<Seq<char>>,
    dir: Seq<Seq<char>>,
    entries: Seq<Entry>,
    linkdir: Option<Seq<Seq<char>>>,
) -> Walked {
    walk_upto(root, dir, entries, entries.len(), linkdir)
}

/// How the manifest, the links and the result of a call stand to the walk it
/// made: the records and links of the walk were appended in order, and the
/// result is the walk's size or the error that ended it.
pub open spec fn recorded(
    files_before: PkgFiles,
    links_before: Seq<Link>,
    files_after: PkgFiles,
    links_after: Seq<Link>,
    result: Result<u64, Error>,
    w: Walked,
) -> bool {
    &&& files_after.dir_paths() == files_before.dir_paths() + w.dirs
    &&& files_after.file_records() == files_before.file_records() + w.files
    &&& link_records(links_after) == link_records(links_before) + w.links
    &&& match result {
        Ok(size) => w.error is None && size == w.size,
        Err(e) => w.error == Some(e),
    }
}

/// The view of an optional path.
pub open spec fn optional_names(path: Option<&Vec<String>>) -> Option<Seq<Seq<char>>> {
    match path {
        Some(p) => Some(names(p@)),
        None => None,
    }
}

/// A walk never loses size, and once it has failed it stays as it is.
pub proof fn lemma_walk_grows(
    root: Seq<Seq<char>>,
    dir: Seq<Seq<char>>,
    entries: Seq<Entry>,
    k: nat,
    n: nat,
    linkdir: Option<Seq<Seq<char>>>,
)
    requires
        k <= n <= entries.len(),
    ensures
        walk_upto(root, dir, entries, k, linkdir).size <= walk_upto(
            root,
            dir,
            entries,
            n,
            linkdir,
        ).size,
        walk_upto(root, dir, entries, k, linkdir).error is Some ==> walk_upto(
            root,
            dir,
            entries,
            n,
            linkdir,
        ) == walk_upto(root, dir, entries, k, linkdir),
    decreases n,
{
    if k < n {
        lemma_walk_grows(root, dir, entries, k, (n - 1) as nat, linkdir);
    }
}

/// The path of the entry `name` of the directory `dir`.
pub fn child_path(dir: &Vec<String>, name: &String) -> (path: Vec<String>)
    ensures
        names(path@) == names(dir@).push(name@),
{
    let mut path: Vec<String> = Vec::new();
    let mut i: usize = 0;
    while i < dir.len()
        invariant
            i <= dir.len(),
            path@.len() == i,
            forall|j: int| 0 <= j < i ==> path@[j]@ == dir@[j]@,
        decreases dir.len() - i,
    {
        path.push(dir[i].clone());
        i += 1;
    }
    path.push(name.clone());
    proof {
        assert(names(path@) =~= names(dir@).push(name@));
    }
    path
}

/// Takes the leading components `root` off `path`, as far as `path` begins
/// with them.
pub fn strip_prefix(root: &Vec<String>, path: &Vec<String>) -> (rel: Option<Vec<String>>)
    ensures
        match rel {
            Some(r) => stripped(names(root@), names(path@)) == Some(names(r@)),
            None => stripped(names(root@), names(path@)) is None,
        },
{
    if root.len() > path.len() {
        return None;
    }
    let mut i: usize = 0;
    while i < root.len()
        invariant
            i <= root.len() <= path.len(),
            forall|j: int| 0 <= j < i ==> path@[j]@ == root@[j]@,
        decreases root.len() - i,
    {
        if root[i] != path[i] {
            proof {
                assert(names(path@)[i as int] != names(root@)[i as int]);
            }
            return None;
        }
        i += 1;
    }
    let mut rel: Vec<String> = Vec::new();
    let mut k: usize = root.len();
    while k < path.len()
        invariant
            root.len() <= k <= path.len(),
            rel@.len() == k - root.len(),
            forall|j: int| 0 <= j < rel@.len() ==> rel@[j]@ == path@[j + root.len()]@,
        decreases path.len() - k,
    {
        rel.push(path[k].clone());
        k += 1;
    }
    proof {
        assert(names(rel@) =~= names(path@).skip(root.len() as int));
    }
    Some(rel)
}

/// Writes a path below the package root as a manifest holds it.
pub fn render(rel: &Vec<String>) -> (text: String)
    ensures
        text@ == rendered(names(rel@)),
{
    let mut text = String::from_str("/");
    let mut i: usize = 0;
    while i < rel.len()
        invariant
            i <= rel.len(),
            text@ == "/"@ + joined(names(rel@).take(i as int)),
        decreases rel.len() - i,
    {
        let ghost before = names(rel@).take(i as int);
        let ghost after = names(rel@).take(i + 1);
        proof {
            assert(after.drop_last() =~= before);
            assert(after.last() == rel@[i as int]@);
        }
        if i > 0 {
            text.append("/");
            proof {
                assert(text@ =~= "/"@ + (joined(before) + "/"@));
            }
        }
        text.append(rel[i].as_str());
        proof {
            assert(text@ =~= "/"@ + joined(after));
        }
        i += 1;
    }
    proof {
        assert(names(rel@).take(rel@.len() as int) =~= names(rel@));
    }
    text
}

/// Whether a name is the one that stands for the parent directory.
pub fn names_parent(name: &String) -> (parent: bool)
    ensures
        parent == is_parent_name(name@),
{
    let s = name.as_str();
    s.unicode_len() == 2 && s.get_char(0) == '.' && s.get_char(1) == '.'
}

/// Walks one entry of the directory `dir`, which lies under `root` where the
/// records are to have paths: see [`walk_entry`].
pub fn process_entry(
    root: &Vec<String>,
    dir: &Vec<String>,
    entry: &Entry,
    files: &mut PkgFiles,
    links: &mut Vec<Link>,
    linkdir: Option<&Vec<String>>,
) -> (r: Result<u64, Error>)
    requires
        walk_entry(names(root@), names(dir@), *entry, optional_names(linkdir)).size <= u64::MAX,
    ensures
        recorded(
            *old(files),
            old(links)@,
            *final(files),
            final(links)@,
            r,
            walk_entry(names(root@), names(dir@), *entry, optional_names(linkdir)),
        ),
    decreases entry, 0nat,
{
    let ghost w = walk_entry(names(root@), names(dir@), *entry, optional_names(linkdir));
    let path = child_path(dir, &entry.name);
    proof {
        assert(files.dir_paths() =~= old(files).dir_paths() + Seq::<Seq<char>>::empty());
        assert(files.file_records() =~= old(files).file_records() + Seq::<FileRecord>::empty());
        assert(link_records(links@) =~= link_records(old(links)@) + Seq::<LinkRecord>::empty());
    }
    if let Some(l) = linkdir {
        if names_parent(&entry.name) {
            return Err(Error::InvalidFilePath);
        }
        let target = child_path(l, &entry.name);
        let source = child_path(dir, &entry.name);
        links.push(Link { path: source, target });
        proof {
            assert(link_records(links@) =~= link_records(old(links)@) + seq![
                (LinkRecord {
                    path: names(dir@).push(entry.name@),
                    target: names(l@).push(entry.name@),
                }),
            ]);
        }
    }
    match &entry.kind {
        EntryKind::Dir(children) => {
            match strip_prefix(root, &path) {
                None => Err(Error::StripPrefix),
                Some(rel) => {
                    let file = render(&rel);
                    files.dirs.push(PkgDir { file });
                    let ghost head = Walked {
                        dirs: seq![rendered(names(rel@))],
                        ..Walked::linked(w.links.take(if linkdir is Some { 1int } else { 0int }))
                    };
                    let ghost inner = walk(names(root@), names(path@), children@, None);
                    proof {
                        assert(w == head.followed_by(inner)) by {
                            assert(head.links =~= Walked::linked(
                                match optional_names(linkdir) {
                                    Some(l) => seq![
                                        (LinkRecord {
                                            path: names(path@),
                                            target: l.push(entry.name@),
                                        }),
                                    ],
                                    None => Seq::empty(),
                                },
                            ).links);
                        }
                        assert(files.dir_paths() =~= old(files).dir_paths() + head.dirs);
                    }
                    let r = process_dir(root, &path, children, files, links, None);
                    proof {
                        assert(files.dir_paths() =~= old(files).dir_paths() + w.dirs);
                        assert(files.file_records() =~= old(files).file_records() + w.files);
                        assert(link_records(links@) =~= link_records(old(links)@) + w.links);
                    }
                    r
                },
            }
        },
        EntryKind::File(info) => {
            match strip_prefix(root, &path) {
                None => Err(Error::StripPrefix),
                Some(rel) => {
                    let mtime = match info.modified {
                        Some(t) => t,
                        None => {
                            return Err(Error::SystemTime);
                        },
                    };
                    let sha256 = match &info.content {
                        Some(c) => hash(c.as_slice()),
                        None => {
                            return Err(Error::Io);
                        },
                    };
                    let file = render(&rel);
                    files.files.push(PkgFile { file, mtime, sha256 });
                    proof {
                        assert(files.file_records() =~= old(files).file_records() + w.files);
                        assert(files.dir_paths() =~= old(files).dir_paths() + w.dirs);
                    }
                    Ok(info.len)
                },
            }
        },
        EntryKind::Other => Ok(0),
    }
}

/// Walks the entries of the directory `dir` in their order and appends what
/// it finds to `files`, and to `links` the links that mirror the entries in
/// `linkdir`: see [`walk`]. It ends at the first entry that fails, with what
/// was recorded until then left in place. The sizes of the regular files
/// must add up within `u64`.
pub fn process_dir(
    root: &Vec<String>,
    dir: &Vec<String>,
    entries: &Vec<Entry>,
    files: &mut PkgFiles,
    links: &mut Vec<Link>,
    linkdir: Option<&Vec<String>>,
) -> (r: Result<u64, Error>)
    requires
        walk(names(root@), names(dir@), entries@, optional_names(linkdir)).size <= u64::MAX,
    ensures
        recorded(
            *old(files),
            old(links)@,
            *final(files),
            final(links)@,
            r,
            walk(names(root@), names(dir@), entries@, optional_names(linkdir)),
        ),
    decreases entries, 1nat,
{
    let ghost root_v = names(root@);
    let ghost dir_v = names(dir@);
    let ghost link_v = optional_names(linkdir);
    let mut size: u64 = 0;
    let mut i: usize = 0;
    proof {
        assert(files.dir_paths() =~= old(files).dir_paths() + Seq::<Seq<char>>::empty());
        assert(files.file_records() =~= old(files).file_records() + Seq::<FileRecord>::empty());
        assert(link_records(links@) =~= link_records(old(links)@) + Seq::<LinkRecord>::empty());
    }
    while i < entries.len()
        invariant
            i <= entries.len(),
            root_v == names(root@),
            dir_v == names(dir@),
            link_v == optional_names(linkdir),
            walk(root_v, dir_v, entries@, link_v).size <= u64::MAX,
            recorded(
                *old(files),
                old(links)@,
                *files,
                links@,
                Ok::<u64, Error>(size),
                walk_upto(root_v, dir_v, entries@, i as nat, link_v),
            ),
        decreases entries.len() - i,
    {
        let ghost before = walk_upto(root_v, dir_v, entries@, i as nat, link_v);
        let ghost step = walk_entry(root_v, dir_v, entries@[i as int], link_v);
        let ghost after = walk_upto(root_v, dir_v, entries@, (i + 1) as nat, link_v);
        proof {
            assert(after == before.followed_by(step));
            lemma_walk_grows(root_v, dir_v, entries@, (i + 1) as nat, entries@.len(), link_v);
        }
        let r = process_entry(root, dir, &entries[i], files, links, linkdir);
        proof {
            assert(files.dir_paths() =~= old(files).dir_paths() + after.dirs);
            assert(files.file_records() =~= old(files).file_records() + after.files);
            assert(link_records(links@) =~= link_records(old(links)@) + after.links);
        }
        match r {
            Ok(n) => {
                size = size + n;
            },
            Err(e) => {
                return Err(e);
            },
        }
        i += 1;
    }
    Ok(size)
}

/// Builds the manifest of the package root `pkgdir` from its entries, and the
/// links that mirror its top-level entries in `tmpdir`.
pub fn process_files(pkgdir: &Vec<String>, tmpdir: &Vec<String>, entries: &Vec<Entry>) -> (r: Result<
    (u64, PkgFiles, Vec<Link>),
    Error,
>)
    requires
        walk(names(pkgdir@), names(pkgdir@), entries@, Some(names(tmpdir@))).size <= u64::MAX,
    ensures
        ({
            let w = walk(names(pkgdir@), names(pkgdir@), entries@, Some(names(tmpdir@)));
            match r {
                Ok((size, files, links)) => {
                    &&& w.error is None
                    &&& size == w.size
                    &&& files.dir_paths() == w.dirs
                    &&& files.file_records() == w.files
                    &&& link_records(links@) == w.links
                },
                Err(e) => w.error == Some(e),
            }
        }),
{
    let mut files = PkgFiles::new();
    let mut links: Vec<Link> = Vec::new();
    let ghost w = walk(names(pkgdir@), names(pkgdir@), entries@, Some(names(tmpdir@)));
    proof {
        assert(link_records(links@) =~= Seq::<LinkRecord>::empty());
    }
    let r = process_dir(pkgdir, pkgdir, entries, &mut files, &mut links, Some(tmpdir));
    proof {
        assert(files.dir_paths() =~= w.dirs);
        assert(files.file_records() =~= w.files);
        assert(link_records(links@) =~= w.links);
    }
    match r {
        Ok(size) => Ok((size, files, links)),
        Err(e) => Err(e),
    }
}

/// What a packaging run hands on: where the archive goes, the manifest, the
/// links that fill the staging directory and the properties.
pub struct Package {
    pub dest: Vec<String>,
    pub files: PkgFiles,
    pub links: Vec<Link>,
    pub props: PkgProps,
}

/// The composite version: name, version and epoch, joined by `-` and `_`.
pub open spec fn pkgver_of(spec: BuildSpec) -> Seq<char> {
    spec.name@ + "-"@ + spec.version@ + "_"@ + spec.epoch@
}

/// The file name of the archive for an architecture.
pub open spec fn archive_name_of(spec: BuildSpec, arch: Seq<char>) -> Seq<char> {
    pkgver_of(spec) + "."@ + arch + ".xbps"@
}

/// The properties of a package of `size` bytes built from `spec` for `arch`:
/// the run-time dependencies are those for all uses and then those for
/// running, as they are listed, and the descriptive fields are absent.
pub open spec fn composed(spec: BuildSpec, size: u64, arch: Seq<char>, props: PkgProps) -> bool {
    &&& props.architecture@ == arch
    &&& props.installed_size == size
    &&& props.pkgname@ == spec.name@
    &&& props.pkgver@ == pkgver_of(spec)
    &&& names(props.run_depends@) == names(spec.depends.all@) + names(spec.depends.run@)
    &&& props.version@ == spec.version@
    &&& props.short_desc is None
    &&& props.homepage is None
    &&& props.license is None
    &&& props.maintainer is None
}

/// What packaging the root `pkgdir` into `destdir` for `arch` comes to.
pub open spec fn assembled(
    spec: BuildSpec,
    pkgdir: Seq<Seq<char>>,
    destdir: Seq<Seq<char>>,
    tmpdir: Seq<Seq<char>>,
    entries: Seq<Entry>,
    arch: Seq<char>,
    r: Result<Package, Error>,
) -> bool {
    let w = walk(pkgdir, pkgdir, entries, Some(tmpdir));
    match r {
        Ok(p) => {
            &&& w.error is None
            &&& names(p.dest@) == destdir.push(archive_name_of(spec, arch))
            &&& p.files.dir_paths() == w.dirs
            &&& p.files.file_records() == w.files
            &&& link_records(p.links@) == w.links
            &&& composed(spec, w.size as u64, arch, p.props)
        },
        Err(e) => w.error == Some(e),
    }
}

/// Calls `target::arch`, which gives the name of the architecture that the
/// program was compiled for. Nothing is claimed of the name.
#[verifier::external_body]
fn arch() -> (name: String) {
    target::arch().to_owned()
}

/// Appends copies of the strings of `more` to `list`.
fn extend_names(list: &mut Vec<String>, more: &Vec<String>)
    ensures
        names(final(list)@) == names(old(list)@) + names(more@),
{
    let mut i: usize = 0;
    proof {
        assert(names(list@) =~= names(old(list)@) + names(more@).take(0));
    }
    while i < more.len()
        invariant
            i <= more.len(),
            names(list@) == names(old(list)@) + names(more@).take(i as int),
        decreases more.len() - i,
    {
        let ghost before = names(list@);
        list.push(more[i].clone());
        proof {
            assert(names(list@) =~= before.push(more@[i as int]@));
            assert(names(list@) =~= names(old(list)@) + names(more@).take(i + 1));
        }
        i += 1;
    }
    proof {
        assert(names(more@).take(more@.len() as int) =~= names(more@));
    }
}

/// The composite version of a build: `name-version_epoch`.
pub fn pkgver(spec: &BuildSpec) -> (text: String)
    ensures
        text@ == pkgver_of(*spec),
{
    let mut text = spec.name.clone();
    text.append("-");
    text.append(spec.version.as_str());
    text.append("_");
    text.append(spec.epoch.as_str());
    text
}

/// The file name of the archive: `name-version_epoch.arch.xbps`.
pub fn archive_name(spec: &BuildSpec, arch: &str) -> (text: String)
    ensures
        text@ == archive_name_of(*spec, arch@),
{
    let mut text = pkgver(spec);
    text.append(".");
    text.append(arch);
    text.append(".xbps");
    text
}

/// Composes the properties of a package from its build description, its
/// installed size and the architecture.
pub fn properties(spec: &BuildSpec, size: u64, arch: &str) -> (props: PkgProps)
    ensures
        composed(*spec, size, arch@, props),
{
    let mut run_depends: Vec<String> = Vec::new();
    proof {
        assert(names(run_depends@) =~= Seq::<Seq<char>>::empty());
    }
    extend_names(&mut run_depends, &spec.depends.all);
    extend_names(&mut run_depends, &spec.depends.run);
    proof {
        assert(names(run_depends@) =~= names(spec.depends.all@) + names(spec.depends.run@));
    }
    PkgProps {
        architecture: String::from_str(arch),
        installed_size: size,
        pkgname: spec.name.clone(),
        pkgver: pkgver(spec),
        run_depends,
        version: spec.version.clone(),
        short_desc: None,
        homepage: None,
        license: None,
        maintainer: None,
    }
}

/// Packages the root `pkgdir`, given by its entries, for the architecture
/// `arch`: the archive's place in `destdir`, the manifest, the links that
/// mirror the top-level entries in `tmpdir`, and the properties.
pub fn package_for(
    spec: &BuildSpec,
    pkgdir: &Vec<String>,
    destdir: &Vec<String>,
    tmpdir: &Vec<String>,
    entries: &Vec<Entry>,
    arch: &str,
) -> (r: Result<Package, Error>)
    requires
        walk(names(pkgdir@), names(pkgdir@), entries@, Some(names(tmpdir@))).size <= u64::MAX,
    ensures
        assembled(*spec, names(pkgdir@), names(destdir@), names(tmpdir@), entries@, arch@, r),
{
    let name = archive_name(spec, arch);
    let dest = child_path(destdir, &name);
    match process_files(pkgdir, tmpdir, entries) {
        Ok((size, files, links)) => {
            let props = properties(spec, size, arch);
            Ok(Package { dest, files, links, props })
        },
        Err(e) => Err(e),
    }
}

/// Packages the root `pkgdir` for the architecture that the program was
/// compiled for, which the properties of the result name.
pub fn package(
    spec: &BuildSpec,
    pkgdir: &Vec<String>,
    destdir: &Vec<String>,
    tmpdir: &Vec<String>,
    entries: &Vec<Entry>,
) -> (r: Result<Package, Error>)
    requires
        walk(names(pkgdir@), names(pkgdir@), entries@, Some(names(tmpdir@))).size <= u64::MAX,
    ensures
        match r {
            Ok(p) => assembled(
                *spec,
                names(pkgdir@),
                names(destdir@),
                names(tmpdir@),
                entries@,
                p.props.architecture@,
                r,
            ),
            Err(e) => walk(names(pkgdir@), names(pkgdir@), entries@, Some(names(tmpdir@))).error
                == Some(e),
        },
{
    let arch = arch();
    package_for(spec, pkgdir, destdir, tmpdir, entries, arch.as_str())
}

/// Where the archive stands once the archiving tool has run: at its
/// destination if the tool succeeded, nowhere if it failed.
pub fn archived(dest: Vec<String>, tool_succeeded: bool) -> (r: Result<Vec<String>, Error>)
    ensures
        r == if tool_succeeded {
            Ok::<Vec<String>, Error>(dest)
        } else {
            Err::<Vec<String>, Error>(Error::CommandStatus)
        },
{
    if tool_succeeded {
        Ok(dest)
    } else {
        Err(Error::CommandStatus)
    }
}

/// The lengths of all regular files at and below an entry, added up.
pub open spec fn entry_len(entry: Entry) -> nat
    decreases entry, 0nat,
{
    match entry.kind {
        EntryKind::Dir(children) => tree_len_upto(children@, children@.len()),
        EntryKind::File(info) => info.len as nat,
        EntryKind::Other => 0,
    }
}

/// The lengths of all regular files at and below the first `n` entries.
pub open spec fn tree_len_upto(entries: Seq<Entry>, n: nat) -> nat
    decreases entries, n,
{
    if n == 0 || n > entries.len() {
        0
    } else {
        tree_len_upto(entries, (n - 1) as nat) + entry_len(entries[n - 1])
    }
}

/// The lengths of all regular files of a tree, added up.
pub open spec fn tree_len(entries: Seq<Entry>) -> nat {
    tree_len_upto(entries, entries.len())
}

/// The walk of an entry counts no more than the files at and below it hold.
pub proof fn lemma_entry_walk_within(
    root: Seq<Seq<char>>,
    dir: Seq<Seq<char>>,
    entry: Entry,
    linkdir: Option<Seq<Seq<char>>>,
)
    ensures
        walk_entry(root, dir, entry, linkdir).size <= entry_len(entry),
    decreases entry, 0nat,
{
    match entry.kind {
        EntryKind::Dir(children) => {
            lemma_walk_within(
                root,
                dir.push(entry.name@),
                children@,
                children@.len(),
                None,
            );
        },
        _ => {},
    }
}

/// The walk of the first `n` entries counts no more than the files at and
/// below them hold.
pub proof fn lemma_walk_within(
    root: Seq<Seq<char>>,
    dir: Seq<Seq<char>>,
    entries: Seq<Entry>,
    n: nat,
    linkdir: Option<Seq<Seq<char>>>,
)
    ensures
        walk_upto(root, dir, entries, n, linkdir).size <= tree_len_upto(entries, n),
    decreases entries, n,
{
    if n != 0 && n <= entries.len() {
        lemma_walk_within(root, dir, entries, (n - 1) as nat, linkdir);
        lemma_entry_walk_within(root, dir, entries[n - 1], linkdir);
    }
}

/// The lengths of the first entries of a tree are part of the whole.
pub proof fn lemma_tree_len_grows(entries: Seq<Entry>, k: nat, n: nat)
    requires
        k <= n <= entries.len(),
    ensures
        tree_len_upto(entries, k) <= tree_len_upto(entries, n),
    decreases n,
{
    if k < n {
        lemma_tree_len_grows(entries, k, (n - 1) as nat);
    }
}

/// Adds up the lengths of all regular files of a tree, as far as the sum fits
/// `u64`. Where it does, every walk of the tree stays within `u64`:
/// [`lemma_walk_within`].
pub fn checked_len(entries: &Vec<Entry>) -> (total: Option<u64>)
    ensures
        match total {
            Some(t) => t == tree_len(entries@),
            None => tree_len(entries@) > u64::MAX,
        },
    decreases entries,
{
    let mut total: u64 = 0;
    let mut i: usize = 0;
    while i < entries.len()
        invariant
            i <= entries.len(),
            total == tree_len_upto(entries@, i as nat),
        decreases entries.len() - i,
    {
        let ghost entry = entries@[i as int];
        proof {
            lemma_tree_len_grows(entries@, (i + 1) as nat, entries@.len());
            assert(tree_len_upto(entries@, (i + 1) as nat) == tree_len_upto(entries@, i as nat)
                + entry_len(entry));
        }
        let part = match &entries[i].kind {
            EntryKind::Dir(children) => checked_len(children),
            EntryKind::File(info) => Some(info.len),
            EntryKind::Other => Some(0),
        };
        assert(match part {
            Some(len) => len == entry_len(entry),
            None => entry_len(entry) > u64::MAX,
        });
        match part {
            Some(len) => {
                if len > u64::MAX - total {
                    return None;
                }
                total = total + len;
            },
            None => {
                return None;
            },
        }
        i += 1;
    }
    Some(total)
}

/// Packages the root `pkgdir` as [`package`] does, where the lengths of its
/// regular files add up within `u64`; where they do not, nothing is packaged.
pub fn try_package(
    spec: &BuildSpec,
    pkgdir: &Vec<String>,
    destdir: &Vec<String>,
    tmpdir: &Vec<String>,
    entries: &Vec<Entry>,
) -> (r: Option<Result<Package, Error>>)
    ensures
        r is Some <==> tree_len(entries@) <= u64::MAX,
        match r {
            Some(Ok(p)) => assembled(
                *spec,
                names(pkgdir@),
                names(destdir@),
                names(tmpdir@),
                entries@,
                p.props.architecture@,
                Ok::<Package, Error>(p),
            ),
            Some(Err(e)) => walk(
                names(pkgdir@),
                names(pkgdir@),
                entries@,
                Some(names(tmpdir@)),
            ).error == Some(e),
            None => true,
        },
{
    match checked_len(entries) {
        Some(_) => {
            proof {
                lemma_walk_within(
                    names(pkgdir@),
                    names(pkgdir@),
                    entries@,
                    entries@.len(),
                    Some(names(tmpdir@)),
                );
            }
            Some(package(spec, pkgdir, destdir, tmpdir, entries))
        },
        None => None,
    }
}

/// Packaging is a function of what it is given: two runs over the same
/// description, the same directories, the same entries and the same
/// architecture both fail with the same error, or both succeed with the same
/// destination, the same directory and file records, the same links and the
/// same properties.
pub proof fn lemma_repackaging_is_stable(
    spec: BuildSpec,
    pkgdir: Seq<Seq<char>>,
    destdir: Seq<Seq<char>>,
    tmpdir: Seq<Seq<char>>,
    entries: Seq<Entry>,
    arch: Seq<char>,
    first: Result<Package, Error>,
    second: Result<Package, Error>,
)
    requires
        assembled(spec, pkgdir, destdir, tmpdir, entries, arch, first),
        assembled(spec, pkgdir, destdir, tmpdir, entries, arch, second),
    ensures
        match (first, second) {
            (Ok(p), Ok(q)) => {
                &&& names(p.dest@) == names(q.dest@)
                &&& p.files.dir_paths() == q.files.dir_paths()
                &&& p.files.file_records() == q.files.file_records()
                &&& link_records(p.links@) == link_records(q.links@)
                &&& p.props.architecture@ == q.props.architecture@
                &&& p.props.installed_size == q.props.installed_size
                &&& p.props.pkgname@ == q.props.pkgname@
                &&& p.props.pkgver@ == q.props.pkgver@
                &&& names(p.props.run_depends@) == names(q.props.run_depends@)
                &&& p.props.version@ == q.props.version@
            },
            (Err(e), Err(f)) => e == f,
            _ => false,
        },
{
}

/// A regular file that cannot be read fails the walk of its directory with
/// `Error::Io`, where the entries before it were walked without error, its
/// path lies under the root and its modification time is known.
pub proof fn lemma_unreadable_file_fails(
    root: Seq<Seq<char>>,
    dir: Seq<Seq<char>>,
    entries: Seq<Entry>,
    k: nat,
    linkdir: Option<Seq<Seq<char>>>,
)
    requires
        k < entries.len(),
        walk_upto(root, dir, entries, k, linkdir).error is None,
        entries[k as int].kind is File,
        entries[k as int].kind->File_0.content is None,
        entries[k as int].kind->File_0.modified is Some,
        stripped(root, dir.push(entries[k as int].name@)) is Some,
        !(linkdir is Some && is_parent_name(entries[k as int].name@)),
    ensures
        walk(root, dir, entries, linkdir).error == Some(Error::Io),
{
    let step = walk_entry(root, dir, entries[k as int], linkdir);
    assert(step.error == Some(Error::Io));
    assert(walk_upto(root, dir, entries, k + 1, linkdir) == walk_upto(
        root,
        dir,
        entries,
        k,
        linkdir,
    ).followed_by(step));
    lemma_walk_grows(root, dir, entries, k + 1, entries.len(), linkdir);
}

/// What an entry at `base`, a path below the package root, holds: the
/// directories and the regular files at and below it, each directory before
/// what it contains, and nothing of any other entry.
pub open spec fn entry_contents(base: Seq<Seq<char>>, entry: Entry) -> Walked
    decreases entry, 0nat,
{
    let rel = base.push(entry.name@);
    match entry.kind {
        EntryKind::Dir(children) => (Walked {
            dirs: seq![rendered(rel)],
            ..Walked::nothing()
        }).followed_by(contents_upto(rel, children@, children@.len())),
        EntryKind::File(info) => Walked {
            files: seq![
                (FileRecord {
                    file: rendered(rel),
                    mtime: info.modified->0,
                    sha256: digest_of(info.content->0@),
                }),
            ],
            size: info.len as nat,
            ..Walked::nothing()
        },
        EntryKind::Other => Walked::nothing(),
    }
}

/// What the first `n` entries of the directory at `base` hold.
pub open spec fn contents_upto(base: Seq<Seq<char>>, entries: Seq<Entry>, n: nat) -> Walked
    decreases entries, n,
{
    if n == 0 || n > entries.len() {
        Walked::nothing()
    } else {
        contents_upto(base, entries, (n - 1) as nat).followed_by(
            entry_contents(base, entries[n - 1]),
        )
    }
}

/// A path under the root stays under it with one more component.
pub proof fn lemma_stripped_child(root: Seq<Seq<char>>, dir: Seq<Seq<char>>, name: Seq<char>)
    requires
        stripped(root, dir) is Some,
    ensures
        stripped(root, dir.push(name)) == Some(stripped(root, dir)->0.push(name)),
{
    assert(dir.push(name).skip(root.len() as int) =~= dir.skip(root.len() as int).push(name));
}

/// The walk of an entry that succeeds records what the entry holds.
pub proof fn lemma_entry_walk_lists_contents(
    root: Seq<Seq<char>>,
    dir: Seq<Seq<char>>,
    entry: Entry,
    linkdir: Option<Seq<Seq<char>>>,
)
    requires
        stripped(root, dir) is Some,
        walk_entry(root, dir, entry, linkdir).error is None,
    ensures
        walk_entry(root, dir, entry, linkdir).dirs == entry_contents(
            stripped(root, dir)->0,
            entry,
        ).dirs,
        walk_entry(root, dir, entry, linkdir).files == entry_contents(
            stripped(root, dir)->0,
            entry,
        ).files,
        walk_entry(root, dir, entry, linkdir).size == entry_contents(
            stripped(root, dir)->0,
            entry,
        ).size,
    decreases entry, 0nat,
{
    lemma_stripped_child(root, dir, entry.name@);
    match entry.kind {
        EntryKind::Dir(children) => {
            lemma_walk_lists_contents(
                root,
                dir.push(entry.name@),
                children@,
                children@.len(),
                None,
            );
        },
        _ => {},
    }
}

/// A walk that succeeds records the tree as it is: the manifest lists every
/// directory and every regular file of the tree, by its path below the
/// root and, for a file, the digest of its content, each directory before
/// what it contains; entries of another kind are absent; and the size is the
/// sum of the files' lengths.
pub proof fn lemma_walk_lists_contents(
    root: Seq<Seq<char>>,
    dir: Seq<Seq<char>>,
    entries: Seq<Entry>,
    n: nat,
    linkdir: Option<Seq<Seq<char>>>,
)
    requires
        stripped(root, dir) is Some,
        walk_upto(root, dir, entries, n, linkdir).error is None,
    ensures
        walk_upto(root, dir, entries, n, linkdir).dirs == contents_upto(
            stripped(root, dir)->0,
            entries,
            n,
        ).dirs,
        walk_upto(root, dir, entries, n, linkdir).files == contents_upto(
            stripped(root, dir)->0,
            entries,
            n,
        ).files,
        walk_upto(root, dir, entries, n, linkdir).size == contents_upto(
            stripped(root, dir)->0,
            entries,
            n,
        ).size,
    decreases entries, n,
{
    if n != 0 && n <= entries.len() {
        lemma_walk_lists_contents(root, dir, entries, (n - 1) as nat, linkdir);
        lemma_entry_walk_lists_contents(root, dir, entries[n - 1], linkdir);
    }
}

/// Whether a path as a manifest writes it begins with `/`.
pub open spec fn is_rooted(path: Seq<char>) -> bool {
    path.len() > 0 && path[0] == '/'
}

/// Whether every path that a walk recorded begins with `/`.
pub open spec fn all_rooted(w: Walked) -> bool {
    &&& forall|i: int| 0 <= i < w.dirs.len() ==> is_rooted(#[trigger] w.dirs[i])
    &&& forall|i: int| 0 <= i < w.files.len() ==> is_rooted((#[trigger] w.files[i]).file)
}

/// Every path that the walk of an entry records is rooted at `/`.
pub proof fn lemma_entry_records_are_rooted(
    root: Seq<Seq<char>>,
    dir: Seq<Seq<char>>,
    entry: Entry,
    linkdir: Option<Seq<Seq<char>>>,
)
    ensures
        all_rooted(walk_entry(root, dir, entry, linkdir)),
    decreases entry, 0nat,
{
    reveal_strlit("/");
    match entry.kind {
        EntryKind::Dir(children) => {
            lemma_records_are_rooted(
                root,
                dir.push(entry.name@),
                children@,
                children@.len(),
                None,
            );
        },
        _ => {},
    }
}

/// Every path that a walk records is rooted at `/`, whether the walk
/// succeeds or fails.
pub proof fn lemma_records_are_rooted(
    root: Seq<Seq<char>>,
    dir: Seq<Seq<char>>,
    entries: Seq<Entry>,
    n: nat,
    linkdir: Option<Seq<Seq<char>>>,
)
    ensures
        all_rooted(walk_upto(root, dir, entries, n, linkdir)),
    decreases entries, n,
{
    if n != 0 && n <= entries.len() {
        lemma_records_are_rooted(root, dir, entries, (n - 1) as nat, linkdir);
        lemma_entry_records_are_rooted(root, dir, entries[n - 1], linkdir);
    }
}

} // verus!
