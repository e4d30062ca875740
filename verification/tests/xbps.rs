use pkgforge::digest::hash;
use pkgforge::objects::{BuildSpec, Dependencies, Scripts};
use pkgforge::targets::xbps::{
    archive_name, archived, checked_len, child_path, package, package_for, pkgver, process_dir, process_files,
    properties, render, strip_prefix, try_package, Entry, EntryKind, Error, FileInfo, Link, PkgFiles,
};
use std::collections::HashMap;

fn strings(items: &[&str]) -> Vec<String> {
    items.iter().map(|s| (*s).to_owned()).collect()
}

fn build_spec(all: &[&str], run: &[&str]) -> BuildSpec {
    BuildSpec {
        name: "foo".to_owned(),
        version: "1.2".to_owned(),
        epoch: "1".to_owned(),
        depends: Dependencies { all: strings(all), build: strings(&["cc"]), run: strings(run) },
        sources: vec![],
        scripts: Scripts { install: vec![] },
        alternatives: HashMap::new(),
    }
}

fn file(name: &str, mtime: u64, content: &[u8]) -> Entry {
    Entry {
        name: name.to_owned(),
        kind: EntryKind::File(FileInfo {
            modified: Some(mtime),
            len: content.len() as u64,
            content: Some(content.to_vec()),
        }),
    }
}

fn dir(name: &str, children: Vec<Entry>) -> Entry {
    Entry { name: name.to_owned(), kind: EntryKind::Dir(children) }
}

fn other(name: &str) -> Entry {
    Entry { name: name.to_owned(), kind: EntryKind::Other }
}

fn sample_tree() -> Vec<Entry> {
    vec![
        dir("bin", vec![file("foo", 1500000000, b"0123456789")]),
        dir("share", vec![dir("doc", vec![])]),
    ]
}

fn dir_paths(files: &PkgFiles) -> Vec<String> {
    files.dirs.iter().map(|d| d.file.clone()).collect()
}

fn link_pairs(links: &[Link]) -> Vec<(Vec<String>, Vec<String>)> {
    links.iter().map(|l| (l.path.clone(), l.target.clone())).collect()
}

#[test]
fn new_manifest_is_empty() {
    let files = PkgFiles::new();
    assert!(files.dirs.is_empty());
    assert!(files.files.is_empty());
}

#[test]
fn run_depends_is_all_then_run() {
    let props = properties(&build_spec(&["a", "b"], &["c"]), 0, "x86_64");
    assert_eq!(props.run_depends, strings(&["a", "b", "c"]));
}

#[test]
fn run_depends_keeps_duplicates() {
    let props = properties(&build_spec(&["x"], &["x"]), 0, "x86_64");
    assert_eq!(props.run_depends, strings(&["x", "x"]));
}

#[test]
fn run_depends_leaves_build_dependencies_out() {
    let props = properties(&build_spec(&[], &[]), 0, "x86_64");
    assert!(props.run_depends.is_empty());
}

#[test]
fn properties_of_a_build() {
    let props = properties(&build_spec(&["a"], &[]), 4096, "aarch64");
    assert_eq!(props.architecture, "aarch64");
    assert_eq!(props.installed_size, 4096);
    assert_eq!(props.pkgname, "foo");
    assert_eq!(props.pkgver, "foo-1.2_1");
    assert_eq!(props.version, "1.2");
    assert_eq!(props.short_desc, None);
    assert_eq!(props.homepage, None);
    assert_eq!(props.license, None);
    assert_eq!(props.maintainer, None);
}

#[test]
fn composite_version_and_archive_name() {
    let s = build_spec(&[], &[]);
    assert_eq!(pkgver(&s), "foo-1.2_1");
    assert_eq!(archive_name(&s, "x86_64"), "foo-1.2_1.x86_64.xbps");
}

#[test]
fn end_to_end_manifest_and_properties() {
    let root = strings(&["build", "pkg"]);
    let tmp = strings(&["tmp", "stage"]);
    let dest = strings(&["out"]);
    let p = package_for(&build_spec(&[], &[]), &root, &dest, &tmp, &sample_tree(), "x86_64").unwrap();
    assert_eq!(dir_paths(&p.files), strings(&["/bin", "/share", "/share/doc"]));
    assert_eq!(p.files.files.len(), 1);
    assert_eq!(p.files.files[0].file, "/bin/foo");
    assert_eq!(p.files.files[0].mtime, 1500000000);
    assert_eq!(p.files.files[0].sha256, hash(b"0123456789"));
    assert_eq!(
        p.files.files[0].sha256,
        "84d89877f0d4041efb6bf91a16f0248f2fd573e6af05c19f96bedb9f882f7882"
    );
    assert_eq!(p.props.installed_size, 10);
    assert_eq!(p.props.pkgver, "foo-1.2_1");
    assert_eq!(p.dest, strings(&["out", "foo-1.2_1.x86_64.xbps"]));
}

#[test]
fn only_top_level_entries_are_mirrored() {
    let root = strings(&["build", "pkg"]);
    let tmp = strings(&["tmp", "stage"]);
    let (_, _, links) = process_files(&root, &tmp, &sample_tree()).unwrap();
    assert_eq!(
        link_pairs(&links),
        vec![
            (strings(&["build", "pkg", "bin"]), strings(&["tmp", "stage", "bin"])),
            (strings(&["build", "pkg", "share"]), strings(&["tmp", "stage", "share"])),
        ]
    );
}

#[test]
fn packaging_twice_gives_the_same_records() {
    let root = strings(&["build", "pkg"]);
    let tmp = strings(&["tmp", "stage"]);
    let (size1, files1, links1) = process_files(&root, &tmp, &sample_tree()).unwrap();
    let (size2, files2, links2) = process_files(&root, &tmp, &sample_tree()).unwrap();
    assert_eq!(size1, size2);
    assert_eq!(dir_paths(&files1), dir_paths(&files2));
    assert_eq!(files1.files.len(), files2.files.len());
    assert_eq!(files1.files[0].file, files2.files[0].file);
    assert_eq!(files1.files[0].sha256, files2.files[0].sha256);
    assert_eq!(link_pairs(&links1), link_pairs(&links2));
}

#[test]
fn package_names_the_compiled_architecture() {
    let root = strings(&["pkg"]);
    let p = package(&build_spec(&[], &[]), &root, &strings(&["out"]), &strings(&["tmp"]), &sample_tree())
        .unwrap();
    assert_eq!(p.props.architecture, target::arch());
    assert_eq!(p.dest[1], format!("foo-1.2_1.{}.xbps", target::arch()));
    assert_eq!(p.props.installed_size, 10);
}

#[test]
fn sizes_add_up_over_the_tree() {
    let tree = vec![
        file("a", 1, b"12345"),
        dir("d", vec![file("b", 2, b"123"), dir("e", vec![file("c", 3, b"1")])]),
        file("z", 4, b""),
    ];
    let root = strings(&["r"]);
    let mut files = PkgFiles::new();
    let mut links = vec![];
    let size = process_dir(&root, &root, &tree, &mut files, &mut links, None).unwrap();
    assert_eq!(size, 9);
    assert_eq!(dir_paths(&files), strings(&["/d", "/d/e"]));
    let paths: Vec<String> = files.files.iter().map(|f| f.file.clone()).collect();
    assert_eq!(paths, strings(&["/a", "/d/b", "/d/e/c", "/z"]));
    assert!(links.is_empty());
}

#[test]
fn other_entries_are_passed_over() {
    let tree = vec![other("socket"), file("a", 1, b"12"), other("link")];
    let root = strings(&["r"]);
    let (size, files, links) = process_files(&root, &strings(&["t"]), &tree).unwrap();
    assert_eq!(size, 2);
    assert!(files.dirs.is_empty());
    assert_eq!(files.files.len(), 1);
    assert_eq!(links.len(), 3);
}

#[test]
fn walk_appends_to_what_the_manifest_holds() {
    let root = strings(&["r"]);
    let mut files = PkgFiles::new();
    let mut links = vec![];
    process_dir(&root, &root, &vec![dir("one", vec![])], &mut files, &mut links, None).unwrap();
    process_dir(&root, &root, &vec![dir("two", vec![])], &mut files, &mut links, None).unwrap();
    assert_eq!(dir_paths(&files), strings(&["/one", "/two"]));
}

#[test]
fn unreadable_file_is_an_io_error() {
    let tree = vec![
        file("a", 1, b"1"),
        Entry {
            name: "b".to_owned(),
            kind: EntryKind::File(FileInfo { modified: Some(2), len: 7, content: None }),
        },
        file("c", 3, b"1"),
    ];
    let root = strings(&["r"]);
    assert_eq!(process_files(&root, &strings(&["t"]), &tree).err(), Some(Error::Io));
    let r = package_for(&build_spec(&[], &[]), &root, &strings(&["o"]), &strings(&["t"]), &tree, "x86");
    assert_eq!(r.err(), Some(Error::Io));
}

#[test]
fn failed_walk_leaves_what_it_recorded() {
    let tree = vec![
        dir("d", vec![]),
        Entry {
            name: "b".to_owned(),
            kind: EntryKind::File(FileInfo { modified: Some(2), len: 7, content: None }),
        },
        dir("e", vec![]),
    ];
    let root = strings(&["r"]);
    let mut files = PkgFiles::new();
    let mut links = vec![];
    let r = process_dir(&root, &root, &tree, &mut files, &mut links, Some(&strings(&["t"])));
    assert_eq!(r, Err(Error::Io));
    assert_eq!(dir_paths(&files), strings(&["/d"]));
    assert_eq!(links.len(), 2);
}

#[test]
fn time_before_the_epoch_is_a_clock_error() {
    let tree = vec![Entry {
        name: "old".to_owned(),
        kind: EntryKind::File(FileInfo { modified: None, len: 1, content: Some(vec![0]) }),
    }];
    let root = strings(&["r"]);
    assert_eq!(process_files(&root, &strings(&["t"]), &tree).err(), Some(Error::SystemTime));
}

#[test]
fn directory_outside_the_root_is_a_prefix_error() {
    let mut files = PkgFiles::new();
    let mut links = vec![];
    let r = process_dir(
        &strings(&["build", "pkg"]),
        &strings(&["build", "other"]),
        &vec![file("a", 1, b"1")],
        &mut files,
        &mut links,
        None,
    );
    assert_eq!(r, Err(Error::StripPrefix));
    assert!(files.files.is_empty());
}

#[test]
fn entry_without_a_file_name_cannot_be_mirrored() {
    let root = strings(&["r"]);
    let tree = vec![dir("..", vec![])];
    assert_eq!(
        process_files(&root, &strings(&["t"]), &tree).err(),
        Some(Error::InvalidFilePath)
    );
    let mut files = PkgFiles::new();
    let mut links = vec![];
    let r = process_dir(&root, &root, &tree, &mut files, &mut links, None);
    assert_eq!(r, Ok(0));
    assert_eq!(dir_paths(&files), strings(&["/.."]));
}

#[test]
fn failed_archiving_is_a_command_error() {
    assert_eq!(archived(strings(&["o", "a.xbps"]), false), Err(Error::CommandStatus));
    assert_eq!(archived(strings(&["o", "a.xbps"]), true), Ok(strings(&["o", "a.xbps"])));
}

#[test]
fn checked_len_adds_up_all_files() {
    let tree = vec![
        file("a", 1, b"12345"),
        dir("d", vec![file("b", 2, b"123"), dir("e", vec![file("c", 3, b"1")])]),
        other("o"),
    ];
    assert_eq!(checked_len(&tree), Some(9));
    assert_eq!(checked_len(&vec![]), Some(0));
}

#[test]
fn checked_len_reports_overflow() {
    let big = |name: &str, len: u64| Entry {
        name: name.to_owned(),
        kind: EntryKind::File(FileInfo { modified: Some(0), len, content: None }),
    };
    assert_eq!(checked_len(&vec![big("a", u64::MAX), big("b", 0)]), Some(u64::MAX));
    assert_eq!(checked_len(&vec![big("a", u64::MAX), dir("d", vec![big("b", 1)])]), None);
}

#[test]
fn render_roots_paths_at_slash() {
    assert_eq!(render(&strings(&[])), "/");
    assert_eq!(render(&strings(&["bin"])), "/bin");
    assert_eq!(render(&strings(&["share", "doc", "foo"])), "/share/doc/foo");
}

#[test]
fn strip_prefix_goes_by_components() {
    assert_eq!(
        strip_prefix(&strings(&["a", "b"]), &strings(&["a", "b", "c", "d"])),
        Some(strings(&["c", "d"]))
    );
    assert_eq!(strip_prefix(&strings(&["a", "b"]), &strings(&["a", "b"])), Some(vec![]));
    assert_eq!(strip_prefix(&strings(&["a", "b"]), &strings(&["a", "bc", "d"])), None);
    assert_eq!(strip_prefix(&strings(&["a", "b"]), &strings(&["a"])), None);
    assert_eq!(strip_prefix(&strings(&[]), &strings(&["a"])), Some(strings(&["a"])));
}

#[test]
fn child_path_adds_one_component() {
    assert_eq!(child_path(&strings(&["a", "b"]), &"c".to_owned()), strings(&["a", "b", "c"]));
    assert_eq!(child_path(&strings(&[]), &"c".to_owned()), strings(&["c"]));
}

#[test]
fn try_package_packages_what_fits() {
    let root = strings(&["pkg"]);
    let p = try_package(
        &build_spec(&["a"], &["b"]),
        &root,
        &strings(&["out"]),
        &strings(&["tmp"]),
        &sample_tree(),
    )
    .unwrap()
    .unwrap();
    assert_eq!(p.props.installed_size, 10);
    assert_eq!(p.props.run_depends, strings(&["a", "b"]));
    assert_eq!(dir_paths(&p.files), strings(&["/bin", "/share", "/share/doc"]));
}

#[test]
fn try_package_declines_sizes_beyond_u64() {
    let big = |name: &str| Entry {
        name: name.to_owned(),
        kind: EntryKind::File(FileInfo { modified: Some(0), len: u64::MAX, content: Some(vec![]) }),
    };
    let root = strings(&["pkg"]);
    let r = try_package(
        &build_spec(&[], &[]),
        &root,
        &strings(&["out"]),
        &strings(&["tmp"]),
        &vec![big("a"), big("b")],
    );
    assert!(r.is_none());
}
